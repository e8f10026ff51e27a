use noslop::comments::{parse_annotation, parse_suppression};
use noslop::facts::Visibility;

#[test]
fn suppression_requires_rule() {
    assert!(parse_suppression("// noslop-ignore-file unused-file -- dynamic", 3).is_some());
    assert!(parse_suppression("// noslop-ignore-file", 3).is_none());
}

#[test]
fn suppression_fields() {
    let s = parse_suppression("// noslop-ignore-next-line unused-export -- kept for plugins ", 9).unwrap();
    assert_eq!(s.rule, "unused-export");
    assert!(!s.file_scoped);
    assert_eq!(s.line, 10);
    assert_eq!(s.reason.as_deref(), Some("kept for plugins"));
    let f = parse_suppression("# noslop-ignore-file unused-import and more", 1).unwrap();
    assert_eq!(f.rule, "unused-import");
    assert!(f.file_scoped);
    assert_eq!(f.line, 1);
    assert!(f.reason.is_none());
    let b = parse_suppression("/* noslop-ignore-next-line unused-type */", 4).unwrap();
    assert_eq!(b.rule, "unused-type");
    assert_eq!(b.line, 5);
    assert!(parse_suppression("// noslop-ignore-everything unused-file", 1).is_none());
    assert!(parse_suppression("// noslop-ignore-next-line -- no rule", 1).is_none());
}

#[test]
fn annotations_take_the_first_tagged_line() {
    let a = parse_annotation("/**\n * Helper.\n * @expected-unused -- wired up next sprint\n */", 12).unwrap();
    assert_eq!(a.visibility, Visibility::ExpectedUnused);
    assert_eq!(a.line, 12);
    assert_eq!(a.reason.as_deref(), Some("wired up next sprint"));
    let p = parse_annotation("// @public", 3).unwrap();
    assert_eq!(p.visibility, Visibility::Public);
    assert!(p.reason.is_none());
    let i = parse_annotation("# @internal --   ", 7).unwrap();
    assert_eq!(i.visibility, Visibility::Internal);
    assert!(i.reason.is_none());
    assert!(parse_annotation("// see @public docs", 1).is_none());
    assert!(parse_annotation("// plain comment", 1).is_none());
}

#[test]
fn next_line_directive_is_recognised() {
    assert!(noslop::comments::opens_next_line("// noslop-ignore-next-line unused-export"));
    assert!(!noslop::comments::opens_next_line("// noslop-ignore-file unused-file"));
    assert!(!noslop::comments::opens_next_line("// noslop-ignore-next-line"));
}
