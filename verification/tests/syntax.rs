use noslop::ids::{Language, Span};
use noslop::extract::extract;
use noslop::syntax::{source_events, SyntaxEvent};

#[test]
fn css_walk_is_balanced_and_starts_at_the_sheet() {
    let ev = source_events(".a { color: red; }\n", Language::Css);
    let opens = ev.iter().filter(|e| matches!(e, SyntaxEvent::Open(..))).count();
    let closes = ev.iter().filter(|e| matches!(e, SyntaxEvent::Close)).count();
    assert_eq!(opens, closes);
    match &ev[0] {
        SyntaxEvent::Open(kind, _, _, start_row, ..) => {
            assert_eq!(kind, "stylesheet");
            assert_eq!(*start_row, 0);
        }
        other => panic!("{other:?}"),
    }
}

#[test]
fn css_tokens_references_and_classes_are_read() {
    let src = ":root {\n  --brand: #f00;\n  --dead-token: 1px;\n}\n.card {\n  color: var(--brand);\n  margin: var(--missing, 2px);\n}\n.ghost .card { padding: 0; }\n";
    let f = extract("a.css".to_string(), src, 0, Language::Css).unwrap();
    let (declared, refs, classes) = (f.style.declared_tokens, f.style.var_refs, f.style.class_selectors);
    let names: Vec<&str> = declared.iter().map(|c| c.name.as_str()).collect();
    assert_eq!(names, vec!["--brand", "--dead-token"]);
    assert_eq!(declared[0].span, Span::new(2, 2));
    assert_eq!(refs, vec!["--brand".to_string(), "--missing".to_string()]);
    let cls: Vec<(&str, u32)> = classes.iter().map(|c| (c.name.as_str(), c.span.start_line)).collect();
    assert_eq!(cls, vec![("card", 5), ("ghost", 9), ("card", 9)]);
}

#[test]
fn script_walk_names_fields() {
    let ev = source_events("f(x);\n", Language::TypeScript);
    let fields: Vec<(String, String)> = ev
        .iter()
        .filter_map(|e| match e {
            SyntaxEvent::Open(kind, field, ..) if !field.is_empty() => Some((kind.clone(), field.clone())),
            _ => None,
        })
        .collect();
    assert!(fields.contains(&("identifier".to_string(), "function".to_string())));
    assert!(fields.contains(&("arguments".to_string(), "arguments".to_string())));
}
