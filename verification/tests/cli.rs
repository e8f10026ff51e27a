use noslop::cli::{autofixable, explain, is_autofix_rule, parse_rule, rule_filter, CommandKind, FixRunOptions};
use noslop::finding::{Confidence, Finding, RuleId, Severity};
use noslop::ids::Span;

const ALL_RULES: [RuleId; 22] = [
    RuleId::UnusedFile,
    RuleId::UnusedExport,
    RuleId::UnusedType,
    RuleId::UnusedImport,
    RuleId::UnusedDependency,
    RuleId::UnusedEnumMember,
    RuleId::UnusedClassMember,
    RuleId::UnusedParameter,
    RuleId::ExpectedUnusedButUsed,
    RuleId::MissingSuppressionReason,
    RuleId::HighComplexity,
    RuleId::LargeFunction,
    RuleId::BannedImport,
    RuleId::BannedCall,
    RuleId::BannedEffect,
    RuleId::BoundaryViolation,
    RuleId::DuplicateCode,
    RuleId::UnusedCssToken,
    RuleId::BrokenCssReference,
    RuleId::UnusedCssClass,
    RuleId::CircularImports,
    RuleId::OnlyUsedInTests,
];

fn finding(rule: RuleId, file: &str) -> Finding {
    Finding {
        rule,
        severity: Severity::Warn,
        confidence: Confidence::High,
        symbol: None,
        file: file.to_string(),
        span: Span::new(1, 1),
        message: "m".to_string(),
        reason: "r".to_string(),
    }
}

#[test]
fn every_rule_name_parses_back() {
    for rule in ALL_RULES {
        assert_eq!(parse_rule(rule.as_str()), Ok(rule));
    }
}

#[test]
fn every_rule_is_explained() {
    for rule in ALL_RULES {
        let text = explain(rule.as_str());
        assert!(!text.starts_with("Unknown rule"), "{}", rule.as_str());
    }
}

#[test]
fn explain_trims_and_knows_the_rule() {
    let text = explain("  unused-file\n");
    assert!(text.starts_with("unused-file — a source file not reachable from any entry point."));
    assert!(text.ends_with("Suppress: # noslop-ignore-file unused-file -- <reason>"));
}

#[test]
fn explain_groups_the_css_rules() {
    assert_eq!(explain("unused-css-class"), explain("broken-css-reference"));
    assert!(explain("unused-css-token").starts_with("CSS liveness (Slice 1)"));
}

#[test]
fn explain_unknown_rule_lists_the_known_ones() {
    let text = explain(" nope ");
    assert!(text.starts_with("Unknown rule 'nope'. Known rules: unused-file, unused-export,"));
    assert!(text.ends_with("circular-imports, only-used-in-tests."));
}

#[test]
fn parse_rule_trims_and_rejects_unknown_names() {
    assert_eq!(parse_rule(" circular-imports "), Ok(RuleId::CircularImports));
    assert_eq!(parse_rule("\tunused-file\n"), Ok(RuleId::UnusedFile));
    assert_eq!(parse_rule("   "), Err("unknown rule ''".to_string()));
    assert_eq!(parse_rule("Unused-File"), Err("unknown rule 'Unused-File'".to_string()));
}

#[test]
fn subcommand_rules_without_filter() {
    assert_eq!(
        rule_filter(Some(CommandKind::Dead), &vec![]),
        Ok(Some(vec![RuleId::UnusedFile, RuleId::UnusedExport, RuleId::UnusedImport, RuleId::OnlyUsedInTests]))
    );
    assert_eq!(rule_filter(Some(CommandKind::Cycles), &vec![]), Ok(Some(vec![RuleId::CircularImports])));
    assert_eq!(rule_filter(Some(CommandKind::Other), &vec![]), Ok(None));
    assert_eq!(rule_filter(None, &vec![]), Ok(None));
}

#[test]
fn filter_narrows_the_subcommand_rules_in_their_order() {
    let filter = vec!["unused-import".to_string(), "unused-file".to_string(), "circular-imports".to_string()];
    assert_eq!(
        rule_filter(Some(CommandKind::Dead), &filter),
        Ok(Some(vec![RuleId::UnusedFile, RuleId::UnusedImport]))
    );
}

#[test]
fn filter_alone_names_each_rule_once() {
    let filter = vec!["duplicate-code".to_string(), "unused-file".to_string(), "duplicate-code".to_string()];
    assert_eq!(rule_filter(None, &filter), Ok(Some(vec![RuleId::DuplicateCode, RuleId::UnusedFile])));
}

#[test]
fn filter_reports_the_first_unknown_name() {
    let filter = vec!["unused-file".to_string(), "bogus".to_string(), "worse".to_string()];
    assert_eq!(rule_filter(Some(CommandKind::Fix), &filter), Err("unknown rule 'bogus'".to_string()));
}

#[test]
fn only_dead_code_rules_are_autofixable() {
    assert!(is_autofix_rule(RuleId::UnusedType));
    assert!(is_autofix_rule(RuleId::UnusedDependency));
    assert!(!is_autofix_rule(RuleId::CircularImports));
    let all = vec![
        finding(RuleId::UnusedFile, "a.ts"),
        finding(RuleId::DuplicateCode, "b.ts"),
        finding(RuleId::UnusedImport, "c.ts"),
    ];
    let kept = autofixable(&all);
    assert_eq!(kept.len(), 2);
    assert_eq!(kept[0].file, "a.ts");
    assert_eq!(kept[1].file, "c.ts");
}

#[test]
fn fix_run_options_ask_for_high_confidence() {
    let o = FixRunOptions { dry_run: true, include_deps: false }.fix_options();
    assert!(o.dry_run);
    assert!(!o.include_deps);
    assert_eq!(o.min_confidence, Confidence::High);
}

#[test]
fn explanations_keep_their_exact_text() {
    assert_eq!(
        explain("unused-css-token"),
        "CSS liveness (Slice 1) — unused-css-token: a `--custom-property` no `var()` references; \
         broken-css-reference: a `var(--x)` with no declaration; unused-css-class: a `.class` selector \
         never used in any `className`/`class` attribute (Medium — dynamic classes are common). \
         Enable with `[style]`."
    );
    assert!(explain("banned-call").starts_with("banned-import / banned-call / banned-effect — a policy rule pack"));
    assert_eq!(
        explain("unused-import"),
        "unused-import — an imported name never used in its file.\n\n\
         Cheap and effectively false-positive-free, so always High confidence.\n\n\
         Suppress: remove the import (that is the fix)."
    );
    assert_eq!(
        explain("bogus"),
        "Unknown rule 'bogus'. Known rules: unused-file, unused-export, \
         unused-type, unused-import, unused-enum-member, unused-class-member, \
         unused-parameter, expected-unused-but-used, missing-suppression-reason, \
         high-complexity, large-function, banned-import, banned-call, banned-effect, \
         boundary-violation, duplicate-code, unused-css-token, broken-css-reference, \
         unused-css-class, unused-dependency, circular-imports, only-used-in-tests."
    );
    for rule in ALL_RULES {
        assert!(explain(rule.as_str()).contains(rule.as_str()));
    }
}
