use noslop::extract::extract;
use noslop::extract::tokens::tokenize;
use noslop::facts::{ExportKind, FileFacts, FunctionMetrics, ImportKind, Marker, SymbolKind, TokKind};
use noslop::hash::content_hash;
use noslop::ids::Language;

fn facts(src: &str, lang: Language) -> FileFacts {
    extract("test".to_string(), src, 0, lang).unwrap()
}

#[test]
fn ts_named_import_and_export() {
    let f = facts(
        "import { a, b as c } from './m';\nexport const used = 1;\nexport function dead() {}\n",
        Language::TypeScript,
    );
    let imp = &f.imports[0];
    assert_eq!(imp.specifier, "./m");
    assert_eq!(imp.kind, ImportKind::Static);
    let locals: Vec<_> = imp.names.iter().map(|n| n.local.as_str()).collect();
    assert!(locals.contains(&"a") && locals.contains(&"c"));
    let exports: Vec<_> = f.exports.iter().map(|e| e.name.as_str()).collect();
    assert!(exports.contains(&"used") && exports.contains(&"dead"));
    assert!(f.symbols.iter().any(|s| s.name == "dead" && s.exported));
}

#[test]
fn ts_reexport_becomes_import() {
    let f = facts("export * from './barrel';\n", Language::TypeScript);
    assert_eq!(f.imports[0].specifier, "./barrel");
    assert!(f.imports[0].is_namespace);
}

#[test]
fn ts_dynamic_literal_vs_expr() {
    let f = facts("const a = import('./ok');\nconst b = import(dynamicPath);\n", Language::TypeScript);
    assert!(f.imports.iter().any(|i| i.kind == ImportKind::Dynamic));
    assert!(f.has_unresolvable_dynamism());
}

#[test]
fn ts_default_export() {
    let f = facts("export default function foo() {}\n", Language::TypeScript);
    assert!(f.exports.iter().any(|e| e.kind == ExportKind::Default));
}

#[test]
fn py_from_import_and_defs() {
    let f = facts(
        "from a.b import c, d as e\nimport os\n\ndef used():\n    pass\n\ndef _private():\n    pass\n",
        Language::Python,
    );
    assert!(f.imports.iter().any(|i| i.specifier == "a.b"));
    assert!(f.imports.iter().any(|i| i.specifier == "os"));
    assert!(f.symbols.iter().any(|s| s.name == "used" && s.kind == SymbolKind::Function));
    assert!(f.symbols.iter().any(|s| s.name == "used" && s.exported));
    assert!(f.symbols.iter().any(|s| s.name == "_private" && !s.exported));
}

#[test]
fn py_all_can_promote_private_api() {
    let f = facts("__all__ = ['_plugin_hook']\n\ndef _plugin_hook():\n    pass\n", Language::Python);
    assert!(f.symbols.iter().any(|s| s.name == "_plugin_hook" && s.exported));
}

#[test]
fn py_decorator_marker() {
    let f = facts("import app\n\n@app.route('/x')\ndef handler():\n    pass\n", Language::Python);
    assert!(f
        .markers
        .iter()
        .any(|m| matches!(m, Marker::Decorator { dotted, .. } if dotted == "app.route")));
}

fn names_of(f: &FileFacts, kind: SymbolKind) -> Vec<&str> {
    f.symbols.iter().filter(|s| s.kind == kind).map(|s| s.name.as_str()).collect()
}

#[test]
fn ts_enum_members_and_access() {
    let f = facts("export enum Color { Red, Green, Blue }\nconst x = Color.Red;\n", Language::TypeScript);
    let mut members = names_of(&f, SymbolKind::EnumMember);
    members.sort();
    assert_eq!(members, vec!["Blue", "Green", "Red"]);
    assert!(f.symbols.iter().any(|s| s.name == "Color" && s.kind == SymbolKind::Type));
    assert!(f.member_accesses.iter().any(|m| m == "Red"));
}

#[test]
fn ts_private_members_only() {
    let f = facts(
        "class W {\n  #secret = 1;\n  private hidden() { return this.#secret; }\n  public shown() {}\n}\n",
        Language::Tsx,
    );
    let mut priv_members: Vec<&str> = f
        .symbols
        .iter()
        .filter(|s| matches!(s.kind, SymbolKind::Method | SymbolKind::Field))
        .map(|s| s.name.as_str())
        .collect();
    priv_members.sort();
    assert_eq!(priv_members, vec!["hidden", "secret"]);
    assert!(f.member_accesses.iter().any(|m| m == "secret"));
}

#[test]
fn ts_trailing_unused_param() {
    let f = facts("function f(a: number, b: number) { return a; }\n", Language::TypeScript);
    assert_eq!(names_of(&f, SymbolKind::Parameter), vec!["b"]);
}

#[test]
fn ts_used_and_underscore_params_are_spared() {
    let f = facts("function f(a: number, _ignored: number) { return a; }\n", Language::TypeScript);
    assert!(names_of(&f, SymbolKind::Parameter).is_empty());
}

#[test]
fn ts_constructor_parameter_properties_are_not_unused_params() {
    let f = facts(
        "class C {\n  constructor(private readonly admin: AdminService, readonly cache: Cache) {}\n}\n",
        Language::TypeScript,
    );
    assert!(names_of(&f, SymbolKind::Parameter).is_empty());
}

#[test]
fn py_private_methods_and_params() {
    let f = facts(
        "def compute(used, dead):\n    return used\n\nclass S:\n    def run(self):\n        return self._helper()\n    def _helper(self):\n        return 1\n    def __init__(self):\n        pass\n",
        Language::Python,
    );
    assert_eq!(names_of(&f, SymbolKind::Parameter), vec!["dead"]);
    let methods = names_of(&f, SymbolKind::Method);
    assert!(methods.contains(&"_helper"));
    assert!(!methods.contains(&"__init__"));
    assert!(!methods.contains(&"run"));
    assert!(f.member_accesses.iter().any(|m| m == "_helper"));
}

#[test]
fn py_decorated_private_methods_are_framework_hooks() {
    let f = facts(
        "class Settings:\n    @field_validator('path')\n    @classmethod\n    def _resolve_path(cls, value):\n        return value\n",
        Language::Python,
    );
    assert!(names_of(&f, SymbolKind::Method).is_empty());
}

#[test]
fn py_relative_import_specifier_not_doubled() {
    let f = facts("from .sub.mod import thing\n", Language::Python);
    assert_eq!(f.imports[0].specifier, ".sub.mod");
}

fn func<'a>(f: &'a FileFacts, name: &str) -> &'a FunctionMetrics {
    f.functions
        .iter()
        .find(|fm| fm.name == name)
        .unwrap_or_else(|| panic!("no function {name} in {:?}", f.functions))
}

#[test]
fn cx_trivial_function() {
    let f = facts("function f(a: number) { return a + 1; }\n", Language::TypeScript);
    let m = func(&f, "f");
    assert_eq!((m.cyclomatic, m.cognitive), (1, 0));
}

#[test]
fn cx_if_else_and_boolean() {
    let f = facts(
        "function f(x: number) { if (x > 0 && x < 9) { return 1; } else { return 2; } }\n",
        Language::TypeScript,
    );
    let m = func(&f, "f");
    assert_eq!((m.cyclomatic, m.cognitive), (3, 3));
}

#[test]
fn cx_nesting_penalty() {
    let f = facts(
        "function f(x: number) { if (x) { for (;;) { if (x) { return 1; } } } }\n",
        Language::TypeScript,
    );
    let m = func(&f, "f");
    assert_eq!(m.cyclomatic, 4);
    assert_eq!(m.cognitive, 1 + 2 + 3);
}

#[test]
fn cx_python_elif_flat() {
    let f = facts(
        "def f(x):\n    if x:\n        return 1\n    elif x > 2:\n        return 2\n    else:\n        return 3\n",
        Language::Python,
    );
    let m = func(&f, "f");
    assert_eq!((m.cyclomatic, m.cognitive), (3, 3));
}

#[test]
fn cx_methods_attributed_to_class() {
    let f = facts("class W { run(x: number) { if (x) { return 1; } return 0; } }\n", Language::Tsx);
    let m = func(&f, "run");
    assert_eq!(m.parent.as_deref(), Some("W"));
    assert_eq!((m.cyclomatic, m.cognitive), (2, 1));
}

#[test]
fn extraction_keeps_path_hash_and_line_count() {
    let src = "const a = 1;\nconst b = a;\n";
    let f = facts(src, Language::TypeScript);
    assert_eq!(f.path, "test");
    assert_eq!(f.content_hash, content_hash(src.as_bytes()));
    assert_eq!(f.metrics.loc, 2);
    let refs: Vec<&str> = f.refs.iter().map(|r| r.name.as_str()).collect();
    assert_eq!(refs, vec!["a", "b", "a"]);
}

#[test]
fn imported_names_are_not_their_own_uses() {
    let f = facts("import { x } from './x';\n", Language::TypeScript);
    assert!(f.refs.is_empty());
    assert_eq!(f.imports[0].span.start_line, 1);
}

#[test]
fn require_and_calls_are_recorded() {
    let f = facts("const fs = require('fs');\nchild_process.exec('ls');\n", Language::JavaScript);
    assert!(f.imports.iter().any(|i| i.kind == ImportKind::Require && i.specifier == "fs"));
    let callees: Vec<&str> = f.calls.iter().map(|c| c.callee.as_str()).collect();
    assert_eq!(callees, vec!["require", "child_process.exec"]);
}

#[test]
fn jsx_names_and_class_attributes() {
    let f = facts("const v = <Foo.Bar className=\"card  lg\" />;\n", Language::Tsx);
    assert!(f.refs.iter().any(|r| r.name == "Foo"));
    assert_eq!(f.style.class_refs, vec!["card".to_string(), "lg".to_string()]);
}

#[test]
fn comments_give_suppressions_and_annotations() {
    let f = facts("// noslop-ignore-next-line unused-export -- kept\n/** @public */\nexport const k = 1;\n", Language::TypeScript);
    assert_eq!(f.suppressions.len(), 1);
    assert_eq!(f.suppressions[0].line, 2);
    assert_eq!(f.annotations.len(), 1);
    assert_eq!(f.annotations[0].line, 3);
    assert!(f.symbols.iter().any(|s| s.name == "k" && s.visibility.is_some()));
}

#[test]
fn python_dotted_strings_are_module_markers() {
    let f = facts("X = 'app.tasks.run'\nY = 'not a path'\n", Language::Python);
    let markers: Vec<&str> = f
        .markers
        .iter()
        .filter_map(|m| match m {
            Marker::ModuleStringLiteral { value } => Some(value.as_str()),
            _ => None,
        })
        .collect();
    assert_eq!(markers, vec!["app.tasks.run"]);
    assert_eq!(f.string_literals.len(), 2);
}

#[test]
fn css_extraction_reads_style_only() {
    let f = facts(":root { --brand: red; }\n.card { color: var(--brand); }\n", Language::Css);
    assert_eq!(f.style.declared_tokens.len(), 1);
    assert_eq!(f.style.var_refs, vec!["--brand".to_string()]);
    assert!(f.functions.is_empty());
    assert!(f.symbols.is_empty());
}

#[test]
fn tokens_skip_comments_and_keep_strings_whole() {
    let toks = tokenize("// note\nconst a = \"x y\";\n", Language::TypeScript).unwrap();
    let kinds: Vec<TokKind> = toks.iter().map(|t| t.kind).collect();
    assert_eq!(kinds, vec![TokKind::Punct, TokKind::Ident, TokKind::Punct, TokKind::Str, TokKind::Punct]);
    assert!(toks.iter().all(|t| t.line == 2));
    assert!(toks.last().unwrap().stmt_end);
    assert_eq!(toks[1].hash, content_hash(b"a"));
    assert_eq!(toks[3].hash, content_hash("\"x y\"".as_bytes()));
}

#[test]
fn module_markers_need_word_segments() {
    let f = facts("A = 'a.b-c'\nB = 'caf\u{e9}.menu'\nC = 'x..y'\n", Language::Python);
    let markers: Vec<&str> = f
        .markers
        .iter()
        .filter_map(|m| match m {
            Marker::ModuleStringLiteral { value } => Some(value.as_str()),
            _ => None,
        })
        .collect();
    assert_eq!(markers, vec!["caf\u{e9}.menu"]);
}
