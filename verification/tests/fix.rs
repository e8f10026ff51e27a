use noslop::facts::{FileFacts, FileMetrics, ImportKind, ImportedName, RawImport, StyleFacts};
use noslop::finding::{Confidence, Finding, RuleId, Severity};
use noslop::fix::apply::{apply_file_edits, edits_defined, group_actions, EditFailure, FileEditBatch};
use noslop::fix::diff::delete_diff;
use noslop::fix::lines::replace_line_range;
use noslop::fix::plan::{affected_paths, plan, FixAction, FixOptions, FixPlan};
use noslop::fix::diff::unified_diff;
use noslop::fix::import::patch_import;
use noslop::fix::lines::remove_line_range;
use noslop::fix::manifest::{remove_dependency, requirement_names, ManifestEditError};
use noslop::ids::Span;

fn import(span: Span, names: Vec<(&str, &str)>, specifier: &str) -> RawImport {
    RawImport {
        specifier: specifier.to_string(),
        names: names
            .into_iter()
            .map(|(imported, local)| ImportedName {
                imported: imported.to_string(),
                local: local.to_string(),
            })
            .collect(),
        kind: ImportKind::Static,
        is_namespace: false,
        is_type_only: false,
        is_reexport: false,
        span,
    }
}

/// What `fix` does to a manifest.
fn edit_manifest(path: &str, text: &str, dep: &str) -> Result<String, ManifestEditError> {
    remove_dependency(path, text, dep)
}

#[test]
fn removes_single_line() {
    let src = "a\nb\nc\n";
    let out = remove_line_range(src, 2, 2).unwrap();
    assert_eq!(out, "a\nc\n");
}

#[test]
fn removes_multiline_block() {
    let src = "keep\nexport function dead() {\n  return 1;\n}\nkeep2\n";
    let out = remove_line_range(src, 2, 4).unwrap();
    assert_eq!(out, "keep\nkeep2\n");
}

#[test]
fn shows_removed_line() {
    let diff = unified_diff("x.ts", "keep\nremove\n", "keep\n");
    assert!(diff.contains("-remove"));
}

#[test]
fn removes_named_ts_import_binding() {
    let src = "import { formatPrice, unusedName } from \"@/lib/format\";\n";
    let imp = import(
        Span::new(1, 1),
        vec![("formatPrice", "formatPrice"), ("unusedName", "unusedName")],
        "@/lib/format",
    );
    let remove = vec!["unusedName".to_string()];
    let out = patch_import(src, &imp, &remove).unwrap();
    assert!(out.contains("formatPrice"));
    assert!(!out.contains("unusedName"));
}

#[test]
fn patch_leaves_blank_lines_after_the_statement() {
    let src = "import { a, b } from \"m\";\n\n\nconst x = a;\n";
    let imp = import(Span::new(1, 1), vec![("a", "a"), ("b", "b")], "m");
    let remove = vec!["b".to_string()];
    let out = patch_import(src, &imp, &remove).unwrap();
    assert_eq!(out.lines().skip(1).collect::<Vec<_>>(), vec!["", "", "const x = a;"]);
    assert!(out.ends_with('\n'));
    assert!(!out.lines().next().unwrap().contains('b'));
}

#[test]
fn removes_whole_line_when_last_binding_gone() {
    let src = "import { unusedName } from \"@/lib/format\";\n";
    let imp = import(Span::new(1, 1), vec![("unusedName", "unusedName")], "@/lib/format");
    let remove = vec!["unusedName".to_string()];
    assert!(patch_import(src, &imp, &remove).is_none());
}

#[test]
fn removes_dev_dependency_from_package_json() {
    let src = r#"{
  "name": "app",
  "dependencies": { "react": "18" },
  "devDependencies": { "orphan-pkg": "1.0.0" }
}
"#;
    let out = edit_manifest("package.json", src, "orphan-pkg").unwrap();
    assert!(!out.contains("orphan-pkg"));
    assert!(out.contains("react"));
}

#[test]
fn manifest_edit_errors() {
    match edit_manifest("setup.cfg", "[metadata]\n", "x") {
        Err(ManifestEditError::Unsupported { name }) => assert_eq!(name, "setup.cfg"),
        other => panic!("{other:?}"),
    }
    match edit_manifest("pkg/package.json", "{ not json", "x") {
        Err(ManifestEditError::Invalid { file, syntax }) => {
            assert_eq!((file.as_str(), syntax.as_str()), ("package.json", "JSON"));
            assert_eq!(ManifestEditError::Invalid { file, syntax }.message(), "package.json is not valid JSON");
        }
        other => panic!("{other:?}"),
    }
    match edit_manifest("package.json", "{\"dependencies\": {\"react\": \"18\"}}", "vue") {
        Err(ManifestEditError::NotFound { dep, file }) => assert_eq!((dep.as_str(), file.as_str()), ("vue", "package.json")),
        other => panic!("{other:?}"),
    }
}

#[test]
fn removes_requirement_from_pyproject() {
    let src = "[project]\nname = \"svc\"\ndependencies = [\"requests>=2\", \"orphan [extra] ; python_version>'3'\"]\n";
    let out = edit_manifest("api/pyproject.toml", src, "orphan").unwrap();
    assert!(out.contains("requests"));
    assert!(!out.contains("orphan"));
    assert!(out.ends_with('\n'));
}

#[test]
fn requirement_names_are_read_up_to_the_version() {
    assert!(requirement_names(" requests >= 2.0", "requests"));
    assert!(requirement_names("uvicorn[standard]", "uvicorn"));
    assert!(!requirement_names("requests-oauth", "requests"));
}

#[test]
fn unified_diff_has_one_hunk() {
    let diff = unified_diff("a.ts", "one\ntwo\nthree\n", "one\nthree\n");
    assert_eq!(diff, "--- a/a.ts\n+++ b/a.ts\n@@ -2,1 +2,0 @@\n-two\n");
    assert_eq!(unified_diff("a.ts", "same\n", "same\n"), "--- a/a.ts\n+++ b/a.ts\n");
}

#[test]
fn out_of_range_line_removal_is_refused() {
    assert_eq!(remove_line_range("a\nb\n", 3, 4), None);
    assert_eq!(remove_line_range("a\nb\n", 0, 1), None);
    assert_eq!(remove_line_range("only\n", 1, 1), None);
}

fn facts_with(path: &str, imports: Vec<RawImport>) -> FileFacts {
    FileFacts {
        file: 0,
        path: path.to_string(),
        language: noslop::ids::Language::TypeScript,
        content_hash: 0,
        symbols: Vec::new(),
        imports,
        exports: Vec::new(),
        refs: Vec::new(),
        member_accesses: Vec::new(),
        markers: Vec::new(),
        suppressions: Vec::new(),
        annotations: Vec::new(),
        string_literals: Vec::new(),
        metrics: FileMetrics { loc: 0 },
        functions: Vec::new(),
        calls: Vec::new(),
        style: StyleFacts {
            declared_tokens: Vec::new(),
            var_refs: Vec::new(),
            class_selectors: Vec::new(),
            class_refs: Vec::new(),
        },
    }
}

fn finding(rule: RuleId, confidence: Confidence, file: &str, span: Span, message: &str) -> Finding {
    Finding {
        rule,
        severity: Severity::Warn,
        confidence,
        symbol: None,
        file: file.to_string(),
        span,
        message: message.to_string(),
        reason: String::new(),
    }
}

#[test]
fn plan_gathers_confident_fixes_in_order() {
    let imp = import(Span::new(1, 1), vec![("a", "a"), ("b", "b"), ("c", "c")], "./m");
    let facts = vec![facts_with("src/page.ts", vec![imp])];
    let findings = vec![
        finding(RuleId::UnusedExport, Confidence::High, "src/page.ts", Span::new(9, 12), "Exported function 'x'"),
        finding(RuleId::UnusedFile, Confidence::High, "src/orphan.ts", Span::new(1, 1), "File"),
        finding(RuleId::UnusedImport, Confidence::High, "src/page.ts", Span::new(1, 1),
            "'c' is imported from './m' but never used."),
        finding(RuleId::UnusedImport, Confidence::High, "src/page.ts", Span::new(1, 1),
            "'b' is imported from './m' but never used."),
        finding(RuleId::UnusedFile, Confidence::High, "src/orphan.ts", Span::new(1, 1), "File"),
        finding(RuleId::UnusedExport, Confidence::High, "src/page.ts", Span::new(3, 4), "Exported function 'y'"),
        finding(RuleId::UnusedFile, Confidence::Medium, "src/maybe.ts", Span::new(1, 1), "File"),
        finding(RuleId::UnusedDependency, Confidence::Medium, "package.json", Span::new(1, 1),
            "Declared dependency 'zod' is never imported."),
        finding(RuleId::CircularImports, Confidence::High, "src/a.ts", Span::new(1, 1), "cycle"),
        finding(RuleId::UnusedImport, Confidence::High, "src/gone.ts", Span::new(1, 1),
            "'q' is imported from './m' but never used."),
    ];
    let p = plan(&findings, &facts, &FixOptions::default());
    assert_eq!(p.skipped, 4);
    assert_eq!(p.actions.len(), 4);
    match &p.actions[0] {
        FixAction::DeleteFile { path } => assert_eq!(path, "src/orphan.ts"),
        other => panic!("unexpected {other:?}"),
    }
    match &p.actions[1] {
        FixAction::RemoveImportNames { path, span, locals } => {
            assert_eq!(path, "src/page.ts");
            assert_eq!(*span, Span::new(1, 1));
            assert_eq!(locals, &vec!["c".to_string(), "b".to_string()]);
        }
        other => panic!("unexpected {other:?}"),
    }
    match (&p.actions[2], &p.actions[3]) {
        (FixAction::RemoveLines { start: a, end: b, .. }, FixAction::RemoveLines { start: c, end: d, .. }) => {
            assert_eq!((*a, *b, *c, *d), (3, 4, 9, 12));
        }
        other => panic!("unexpected {other:?}"),
    }
    assert_eq!(affected_paths(&p), vec!["src/orphan.ts".to_string(), "src/page.ts".to_string()]);
}

#[test]
fn dependencies_are_planned_only_when_asked() {
    let findings = vec![finding(RuleId::UnusedDependency, Confidence::Medium, "package.json", Span::new(1, 1),
        "Declared dependency 'zod' is never imported.")];
    let opts = FixOptions { dry_run: true, min_confidence: Confidence::Medium, include_deps: true };
    let p = plan(&findings, &[], &opts);
    assert_eq!(p.skipped, 0);
    match &p.actions[..] {
        [FixAction::RemoveDependency { manifest, dep }] => {
            assert_eq!(manifest, "package.json");
            assert_eq!(dep, "zod");
        }
        other => panic!("unexpected {other:?}"),
    }
}

#[test]
fn grouping_and_applying_file_edits() {
    let src = "import { a, b } from \"./m\";\nimport { c } from \"./n\";\nexport function dead() {\n  return 1;\n}\nkeep();\n";
    let imports = vec![
        import(Span::new(1, 1), vec![("a", "a"), ("b", "b")], "./m"),
        import(Span::new(2, 2), vec![("c", "c")], "./n"),
    ];
    let facts = facts_with("src/x.ts", imports);
    let plan = FixPlan {
        actions: vec![
            FixAction::DeleteFile { path: "src/old.ts".to_string() },
            FixAction::RemoveImportNames { path: "src/x.ts".to_string(), span: Span::new(1, 1), locals: vec!["b".to_string()] },
            FixAction::RemoveLines { path: "src/x.ts".to_string(), start: 3, end: 5 },
            FixAction::RemoveDependency { manifest: "package.json".to_string(), dep: "zod".to_string() },
        ],
        skipped: 0,
    };
    let g = group_actions(&plan);
    assert_eq!(g.deletes, vec!["src/old.ts".to_string()]);
    assert_eq!(g.manifests, vec![("package.json".to_string(), "zod".to_string())]);
    assert_eq!(g.files.len(), 1);
    let (path, batch) = &g.files[0];
    assert_eq!(path, "src/x.ts");
    assert_eq!(batch.lines, vec![(3, 5)]);
    assert!(edits_defined(src, &facts, batch));
    let out = apply_file_edits(src, &facts, batch).unwrap();
    assert_eq!(out, "import {a} from \"./m\";\nimport { c } from \"./n\";\nkeep();\n");
}

#[test]
fn edits_on_a_missing_import_fail() {
    let facts = facts_with("src/x.ts", Vec::new());
    let batch = FileEditBatch { imports: vec![(Span::new(1, 1), vec!["a".to_string()])], lines: Vec::new() };
    assert!(edits_defined("import { a } from \"./m\";\n", &facts, &batch));
    let err = apply_file_edits("import { a } from \"./m\";\n", &facts, &batch).unwrap_err();
    assert_eq!(err.message(), "import span missing after replan");
    let bad_lines = FileEditBatch { imports: Vec::new(), lines: vec![(7, 9)] };
    let err = apply_file_edits("one\n", &facts, &bad_lines).unwrap_err();
    assert_eq!(err.message(), "line removal 7-9 failed");
    assert_eq!(EditFailure::ImportRemoval { start: 2, end: 3 }.message(), "remove import at lines 2-3");
}

#[test]
fn deleted_file_diff() {
    assert_eq!(delete_diff("src/old.ts"), "--- a/src/old.ts\n+++ /dev/null\n(deleted)\n");
}

#[test]
fn replacing_a_line_range() {
    assert_eq!(replace_line_range("a\nb\nc\n", 2, 3, "x"), "a\nx\n");
}

#[test]
fn manifest_edit_drops_the_dependency_from_every_section() {
    let src = "{\"dependencies\": {\"a\": \"1\", \"x\": \"2\"}, \"devDependencies\": {\"x\": \"3\"}, \"scripts\": {\"x\": \"run\"}, \"version\": 1.5}";
    let out = edit_manifest("package.json", src, "x").unwrap();
    let v: serde_json::Value = serde_json::from_str(&out).unwrap();
    assert!(v["dependencies"].get("a").is_some());
    assert!(v["dependencies"].get("x").is_none());
    assert_eq!(v["devDependencies"].as_object().map(|o| o.len()), Some(0));
    assert_eq!(v["scripts"]["x"].as_str(), Some("run"));
    assert_eq!(v["version"].as_f64(), Some(1.5));
    assert!(out.ends_with("}\n"));
}

#[test]
fn poetry_dependency_is_removed_and_others_kept() {
    let src = "[tool.poetry.dependencies]\npython = \"^3.11\"\nhttpx = \"*\"\n\n[project]\nname = \"svc\"\ndependencies = [\"httpx>=0.2\", 7]\n";
    let out = edit_manifest("pyproject.toml", src, "httpx").unwrap();
    let v: toml::Value = out.parse().unwrap();
    assert!(v["tool"]["poetry"]["dependencies"].get("httpx").is_none());
    assert_eq!(v["tool"]["poetry"]["dependencies"]["python"].as_str(), Some("^3.11"));
    assert_eq!(v["project"]["dependencies"].as_array().map(|a| a.len()), Some(1));
    assert_eq!(v["project"]["name"].as_str(), Some("svc"));
    match edit_manifest("pyproject.toml", "not = [valid", "x") {
        Err(ManifestEditError::Invalid { file, syntax }) => assert_eq!((file.as_str(), syntax.as_str()), ("pyproject.toml", "TOML")),
        other => panic!("{other:?}"),
    }
    match edit_manifest("pyproject.toml", "[project]\ndependencies = [\"requests\"]\n", "httpx") {
        Err(e) => assert_eq!(e.message(), "dependency 'httpx' not found in pyproject.toml"),
        other => panic!("{other:?}"),
    }
}

#[test]
fn overlapping_head_and_tail_are_clipped() {
    let diff = unified_diff("f", "a\nb\na\n", "a\nb\nx\nb\na\n");
    assert!(diff.starts_with("--- a/f\n+++ b/f\n"));
    assert!(diff.lines().any(|l| l == "+x"));
    assert_eq!(diff, "--- a/f\n+++ b/f\n@@ -3,0 +3,2 @@\n+x\n+b\n");
}

#[test]
fn overlapping_tail_keeps_both_texts_aligned() {
    let diff = unified_diff("f", "a\nb\nx\nb\na\n", "a\nb\na\n");
    assert_eq!(diff, "--- a/f\n+++ b/f\n@@ -3,2 +3,0 @@\n-x\n-b\n");
}
