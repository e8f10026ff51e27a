//! The command-line vocabulary that is not I/O: which rules each subcommand
//! reports, the parsing of rule names given with `--filter`, the rules that
//! `fix` may act on, and the text of `explain`.

use vstd::prelude::*;
use vstd::string::*;
use crate::finding::{flat, lemma_views_push, opt, rule_name, views, Confidence, Finding, FindingView, RuleId};
use crate::fix::plan::FixOptions;
use crate::scan::{is_ws, trim, trimmed};
use crate::order::string_views;
use crate::ids::starts_with;
use crate::text::{cat, cat3, chars_of, decimal, owned, push_str, str_is, string_from, u64_to_string};
use crate::workspace::{DiscoveredFile, Package, Workspace};

verus! {

// What `explain` prints of a rule: its name, then the text below (the CSS
// and policy texts name several rules within them).
pub const ABOUT_UNUSED_FILE: &'static str = " — a source file not reachable from any entry point.\n\n\
    Why it fires: starting from every detected entry point (framework \
    routes, CLI targets, tests, package main/bin), noslop follows import \
    edges. Files never reached are reported.\n\n\
    False-positive traps: files loaded dynamically by string, plugin \
    conventions noslop doesn't know. Confidence is capped to Medium when \
    the package has unresolvable dynamic imports.\n\n\
    Suppress: # noslop-ignore-file unused-file -- <reason>";
pub const ABOUT_UNUSED_EXPORT: &'static str = " — an exported symbol no live file references by name.\n\n\
    Why it fires: the file is reachable, but no other file imports this \
    name (and it isn't part of an entry point's public API).\n\n\
    Suppress: // noslop-ignore-next-line unused-export -- <reason>";
pub const ABOUT_UNUSED_TYPE: &'static str = " — an exported type/interface/enum no live file references \
    by name. Same detection as unused-export, split into its own rule so \
    types can be triaged and configured separately.\n\n\
    Suppress: // noslop-ignore-next-line unused-type -- <reason>";
pub const ABOUT_UNUSED_ENUM_MEMBER: &'static str = " — a member of an enum never accessed anywhere in \
    the repo (`Color.Red`, `{ Red } = Color`). Checked against a repo-wide \
    member-access index, so a member used in any file is spared; the check \
    can only miss a use, never invent one. Names that appear in a string \
    literal are capped to Medium (serialized-by-name enums).\n\n\
    Suppress: // noslop-ignore-next-line unused-enum-member -- <reason>";
pub const ABOUT_UNUSED_CLASS_MEMBER: &'static str = " — a private class member (`#field`, TS `private`, \
    Python `_method`) never accessed anywhere in the repo. Only private \
    members are checked — a public member may be reached dynamically or \
    through an interface — so the finding is inheritance-safe.\n\n\
    Suppress: // noslop-ignore-next-line unused-class-member -- <reason>";
pub const ABOUT_CSS_LIVENESS: &'static str = "CSS liveness (Slice 1) — ";
pub const ABOUT_CSS_TOKEN: &'static str = ": a `--custom-property` no `var()` references; ";
pub const ABOUT_CSS_REFERENCE: &'static str = ": a `var(--x)` with no declaration; ";
pub const ABOUT_CSS_CLASS: &'static str = ": a `.class` selector never used in any \
    `className`/`class` attribute (Medium — dynamic classes are common). \
    Enable with `[style]`.";
pub const ABOUT_DUPLICATE_CODE: &'static str = " — a block of tokens repeated across the repo, found via \
    a suffix array over normalized token streams. Modes: exact, mild \
    (default, ignores numbers), weak (ignores strings), semantic (ignores \
    consistent renames). Enable with `[duplication]` or `noslop dupes`; \
    tune `min-tokens` and `skip-local`.";
pub const ABOUT_POLICY_BANS: &'static str = " — a policy rule pack \
    forbids an import specifier, a call callee, or a whole effect class \
    (network/process/fs). Define packs under `[policy]` in noslop.toml or \
    a referenced `*.toml` pack file; each finding names the rule id.";
pub const ABOUT_BOUNDARY_VIOLATION: &'static str = " — a file imported another architectural layer it is \
    not allowed to depend on. Configure `[boundaries]` with a `preset` \
    (layered/hexagonal/feature-sliced) or explicit `[[boundaries.layer]]` \
    entries with an `allow` list.";
pub const ABOUT_HIGH_COMPLEXITY: &'static str = " — a function whose cyclomatic (McCabe), cognitive \
    (SonarSource), or CRAP change-risk score exceeds the configured \
    threshold. On by default with fallow-parity limits (max-cyclomatic \
    20, max-cognitive 15, max-crap 30); tune under `[complexity]`; \
    disable with `[complexity] enabled = false`. Relax per path with \
    `[[complexity.override]]` + a reason.";
pub const ABOUT_LARGE_FUNCTION: &'static str = " — a function whose line count exceeds the configured \
    limit (fallow parity: `max-unit-size`, default 60). On by default \
    under `[complexity]`; disable with `[complexity] enabled = false`. \
    Relax per path with `[[complexity.override]]` + a reason.";
pub const ABOUT_EXPECTED_UNUSED_BUT_USED: &'static str = " — a symbol annotated `@expected-unused` that \
    now has references. The annotation has served its purpose (or was \
    wrong); remove it so real dead code is caught again.";
pub const ABOUT_MISSING_SUPPRESSION_REASON: &'static str = " — a `noslop-ignore-*` comment or \
    `@expected-unused` tag with no `-- <reason>`. Enabled by \
    `[rules].require-suppression-reason = \"warn\"|\"error\"`. Documented \
    suppressions age far better than bare ones.";
pub const ABOUT_UNUSED_PARAMETER: &'static str = " — a parameter never referenced in its function body. \
    Follows TypeScript's noUnusedParameters rule: only trailing unused \
    params are reported (a param before a used one can't be removed), and \
    `_`-prefixed params are treated as intentionally unused. Local and \
    syntactic, so always High confidence.\n\n\
    Fix: remove the parameter, or prefix it with `_`.";
pub const ABOUT_UNUSED_IMPORT: &'static str = " — an imported name never used in its file.\n\n\
    Cheap and effectively false-positive-free, so always High confidence.\n\n\
    Suppress: remove the import (that is the fix).";
pub const ABOUT_UNUSED_DEPENDENCY: &'static str = " — a declared dependency no import resolves to.\n\n\
    Reported at Medium confidence: tooling used only via config or CLI \
    (bundlers, test runners, type stubs) legitimately has no imports.";
pub const ABOUT_CIRCULAR_IMPORTS: &'static str = " — a group of files that import each other, directly \
    or transitively (a strongly-connected component).\n\n\
    Python cycles default to error (runtime import bugs waiting to fire); \
    TypeScript cycles default to warn. Start with the smallest group.";
pub const ABOUT_ONLY_USED_IN_TESTS: &'static str = " — a file reachable from test entry points but not \
    from any production entry point. Often means dead production code \
    kept alive only by its tests.";
pub const UNKNOWN_RULE: &'static str = "Unknown rule '";
pub const KNOWN_RULES: &'static str = "'. Known rules: ";

/// The CSS liveness text, naming its three rules.
pub open spec fn css_text() -> Seq<char> {
    ABOUT_CSS_LIVENESS@ + "unused-css-token"@ + ABOUT_CSS_TOKEN@ + "broken-css-reference"@ + ABOUT_CSS_REFERENCE@
        + "unused-css-class"@ + ABOUT_CSS_CLASS@
}

/// The policy text, naming its three rules.
pub open spec fn policy_text() -> Seq<char> {
    "banned-import"@ + " / "@ + "banned-call"@ + " / "@ + "banned-effect"@ + ABOUT_POLICY_BANS@
}

/// What `explain` says of a trimmed rule name, `None` for an unknown name.
pub open spec fn explanation(name: Seq<char>) -> Option<Seq<char>> {
    if name == "unused-file"@ {
        Some(name + ABOUT_UNUSED_FILE@)
    } else if name == "unused-export"@ {
        Some(name + ABOUT_UNUSED_EXPORT@)
    } else if name == "unused-type"@ {
        Some(name + ABOUT_UNUSED_TYPE@)
    } else if name == "unused-enum-member"@ {
        Some(name + ABOUT_UNUSED_ENUM_MEMBER@)
    } else if name == "unused-class-member"@ {
        Some(name + ABOUT_UNUSED_CLASS_MEMBER@)
    } else if name == "unused-css-token"@ || name == "broken-css-reference"@ || name == "unused-css-class"@ {
        Some(css_text())
    } else if name == "duplicate-code"@ {
        Some(name + ABOUT_DUPLICATE_CODE@)
    } else if name == "banned-import"@ || name == "banned-call"@ || name == "banned-effect"@ {
        Some(policy_text())
    } else if name == "boundary-violation"@ {
        Some(name + ABOUT_BOUNDARY_VIOLATION@)
    } else if name == "high-complexity"@ {
        Some(name + ABOUT_HIGH_COMPLEXITY@)
    } else if name == "large-function"@ {
        Some(name + ABOUT_LARGE_FUNCTION@)
    } else if name == "expected-unused-but-used"@ {
        Some(name + ABOUT_EXPECTED_UNUSED_BUT_USED@)
    } else if name == "missing-suppression-reason"@ {
        Some(name + ABOUT_MISSING_SUPPRESSION_REASON@)
    } else if name == "unused-parameter"@ {
        Some(name + ABOUT_UNUSED_PARAMETER@)
    } else if name == "unused-import"@ {
        Some(name + ABOUT_UNUSED_IMPORT@)
    } else if name == "unused-dependency"@ {
        Some(name + ABOUT_UNUSED_DEPENDENCY@)
    } else if name == "circular-imports"@ {
        Some(name + ABOUT_CIRCULAR_IMPORTS@)
    } else if name == "only-used-in-tests"@ {
        Some(name + ABOUT_ONLY_USED_IN_TESTS@)
    } else {
        None
    }
}

/// Every rule's name, in the order `explain` lists them.
pub open spec fn all_rule_names() -> Seq<Seq<char>> {
    seq!["unused-file"@, "unused-export"@, "unused-type"@, "unused-import"@, "unused-enum-member"@, "unused-class-member"@, "unused-parameter"@, "expected-unused-but-used"@, "missing-suppression-reason"@, "high-complexity"@, "large-function"@, "banned-import"@, "banned-call"@, "banned-effect"@, "boundary-violation"@, "duplicate-code"@, "unused-css-token"@, "broken-css-reference"@, "unused-css-class"@, "unused-dependency"@, "circular-imports"@, "only-used-in-tests"@]
}

/// The list of known rules that follows an unknown name.
pub open spec fn known_rules_text() -> Seq<char> {
    KNOWN_RULES@ + comma_joined(all_rule_names()) + "."@
}

/// The text that `explain` prints for a rule name given on the command line.
pub open spec fn explain_text(rule: Seq<char>) -> Seq<char> {
    match explanation(trim(rule)) {
        Some(text) => text,
        None => UNKNOWN_RULE@ + trim(rule) + known_rules_text(),
    }
}

fn known_rules() -> (r: String)
    ensures
        r@ == comma_joined(all_rule_names()),
{
    let mut names: Vec<&str> = Vec::new();
    names.push("unused-file");
    names.push("unused-export");
    names.push("unused-type");
    names.push("unused-import");
    names.push("unused-enum-member");
    names.push("unused-class-member");
    names.push("unused-parameter");
    names.push("expected-unused-but-used");
    names.push("missing-suppression-reason");
    names.push("high-complexity");
    names.push("large-function");
    names.push("banned-import");
    names.push("banned-call");
    names.push("banned-effect");
    names.push("boundary-violation");
    names.push("duplicate-code");
    names.push("unused-css-token");
    names.push("broken-css-reference");
    names.push("unused-css-class");
    names.push("unused-dependency");
    names.push("circular-imports");
    names.push("only-used-in-tests");
    assert(names@.map_values(|n: &str| n@) =~= all_rule_names());
    let mut out: Vec<char> = Vec::new();
    let mut k: usize = 0;
    while k < names.len()
        invariant
            k <= names@.len(),
            names@.map_values(|n: &str| n@) == all_rule_names(),
            out@ == comma_joined(all_rule_names().take(k as int)),
        decreases names@.len() - k,
    {
        let ghost before = out@;
        if k > 0 {
            push_str(&mut out, ", ");
        }
        push_str(&mut out, names[k]);
        proof {
            let t = all_rule_names().take(k + 1);
            assert(t.drop_last() =~= all_rule_names().take(k as int));
            assert(t.last() == names@[k as int]@);
            if k == 0 {
                assert(before =~= Seq::<char>::empty());
                assert(out@ =~= t[0]);
            } else {
                assert(out@ =~= before + ", "@ + t.last());
            }
        }
        k += 1;
    }
    assert(all_rule_names().take(22) =~= all_rule_names());
    string_from(out.as_slice())
}

/// What a rule means, why it fires and how to silence it; for a name that is
/// no rule, the list of known rules.
pub fn explain(rule: &str) -> (r: String)
    ensures
        r@ == explain_text(rule@),
{
    let tv = trimmed(&chars_of(rule));
    let ts = string_from(tv.as_slice());
    let t = ts.as_str();
    if str_is(t, "unused-file") {
        cat(t, ABOUT_UNUSED_FILE)
    } else if str_is(t, "unused-export") {
        cat(t, ABOUT_UNUSED_EXPORT)
    } else if str_is(t, "unused-type") {
        cat(t, ABOUT_UNUSED_TYPE)
    } else if str_is(t, "unused-enum-member") {
        cat(t, ABOUT_UNUSED_ENUM_MEMBER)
    } else if str_is(t, "unused-class-member") {
        cat(t, ABOUT_UNUSED_CLASS_MEMBER)
    } else if str_is(t, "unused-css-token") || str_is(t, "broken-css-reference") || str_is(t, "unused-css-class") {
        let mut out: Vec<char> = Vec::new();
        push_str(&mut out, ABOUT_CSS_LIVENESS);
        push_str(&mut out, "unused-css-token");
        push_str(&mut out, ABOUT_CSS_TOKEN);
        push_str(&mut out, "broken-css-reference");
        push_str(&mut out, ABOUT_CSS_REFERENCE);
        push_str(&mut out, "unused-css-class");
        push_str(&mut out, ABOUT_CSS_CLASS);
        string_from(out.as_slice())
    } else if str_is(t, "duplicate-code") {
        cat(t, ABOUT_DUPLICATE_CODE)
    } else if str_is(t, "banned-import") || str_is(t, "banned-call") || str_is(t, "banned-effect") {
        let mut out: Vec<char> = Vec::new();
        push_str(&mut out, "banned-import");
        push_str(&mut out, " / ");
        push_str(&mut out, "banned-call");
        push_str(&mut out, " / ");
        push_str(&mut out, "banned-effect");
        push_str(&mut out, ABOUT_POLICY_BANS);
        string_from(out.as_slice())
    } else if str_is(t, "boundary-violation") {
        cat(t, ABOUT_BOUNDARY_VIOLATION)
    } else if str_is(t, "high-complexity") {
        cat(t, ABOUT_HIGH_COMPLEXITY)
    } else if str_is(t, "large-function") {
        cat(t, ABOUT_LARGE_FUNCTION)
    } else if str_is(t, "expected-unused-but-used") {
        cat(t, ABOUT_EXPECTED_UNUSED_BUT_USED)
    } else if str_is(t, "missing-suppression-reason") {
        cat(t, ABOUT_MISSING_SUPPRESSION_REASON)
    } else if str_is(t, "unused-parameter") {
        cat(t, ABOUT_UNUSED_PARAMETER)
    } else if str_is(t, "unused-import") {
        cat(t, ABOUT_UNUSED_IMPORT)
    } else if str_is(t, "unused-dependency") {
        cat(t, ABOUT_UNUSED_DEPENDENCY)
    } else if str_is(t, "circular-imports") {
        cat(t, ABOUT_CIRCULAR_IMPORTS)
    } else if str_is(t, "only-used-in-tests") {
        cat(t, ABOUT_ONLY_USED_IN_TESTS)
    } else {
        let list = known_rules();
        let mut out: Vec<char> = Vec::new();
        push_str(&mut out, UNKNOWN_RULE);
        push_str(&mut out, t);
        push_str(&mut out, KNOWN_RULES);
        push_str(&mut out, list.as_str());
        push_str(&mut out, ".");
        string_from(out.as_slice())
    }
}


/// The rule a trimmed `--filter` name stands for.
pub open spec fn rule_named(name: Seq<char>) -> Option<RuleId> {
    if name == "unused-file"@ {
        Some(RuleId::UnusedFile)
    } else if name == "unused-export"@ {
        Some(RuleId::UnusedExport)
    } else if name == "unused-type"@ {
        Some(RuleId::UnusedType)
    } else if name == "unused-import"@ {
        Some(RuleId::UnusedImport)
    } else if name == "unused-enum-member"@ {
        Some(RuleId::UnusedEnumMember)
    } else if name == "unused-class-member"@ {
        Some(RuleId::UnusedClassMember)
    } else if name == "unused-parameter"@ {
        Some(RuleId::UnusedParameter)
    } else if name == "expected-unused-but-used"@ {
        Some(RuleId::ExpectedUnusedButUsed)
    } else if name == "missing-suppression-reason"@ {
        Some(RuleId::MissingSuppressionReason)
    } else if name == "high-complexity"@ {
        Some(RuleId::HighComplexity)
    } else if name == "large-function"@ {
        Some(RuleId::LargeFunction)
    } else if name == "banned-import"@ {
        Some(RuleId::BannedImport)
    } else if name == "banned-call"@ {
        Some(RuleId::BannedCall)
    } else if name == "banned-effect"@ {
        Some(RuleId::BannedEffect)
    } else if name == "boundary-violation"@ {
        Some(RuleId::BoundaryViolation)
    } else if name == "duplicate-code"@ {
        Some(RuleId::DuplicateCode)
    } else if name == "unused-css-token"@ {
        Some(RuleId::UnusedCssToken)
    } else if name == "broken-css-reference"@ {
        Some(RuleId::BrokenCssReference)
    } else if name == "unused-css-class"@ {
        Some(RuleId::UnusedCssClass)
    } else if name == "unused-dependency"@ {
        Some(RuleId::UnusedDependency)
    } else if name == "circular-imports"@ {
        Some(RuleId::CircularImports)
    } else if name == "only-used-in-tests"@ {
        Some(RuleId::OnlyUsedInTests)
    } else {
        None
    }
}

/// The error for a `--filter` name that is no rule.
pub open spec fn unknown_rule_error(name: Seq<char>) -> Seq<char> {
    "unknown rule '"@ + trim(name) + "'"@
}

/// Parses one `--filter` rule name, surrounding whitespace ignored.
pub fn parse_rule(name: &str) -> (r: Result<RuleId, String>)
    ensures
        match rule_named(trim(name@)) {
            Some(rule) => r == Ok::<RuleId, String>(rule),
            None => r matches Err(e) && e@ == unknown_rule_error(name@),
        },
{
    let tv = trimmed(&chars_of(name));
    let ts = string_from(tv.as_slice());
    let t = ts.as_str();
    if str_is(t, "unused-file") {
        Ok(RuleId::UnusedFile)
    } else if str_is(t, "unused-export") {
        Ok(RuleId::UnusedExport)
    } else if str_is(t, "unused-type") {
        Ok(RuleId::UnusedType)
    } else if str_is(t, "unused-import") {
        Ok(RuleId::UnusedImport)
    } else if str_is(t, "unused-enum-member") {
        Ok(RuleId::UnusedEnumMember)
    } else if str_is(t, "unused-class-member") {
        Ok(RuleId::UnusedClassMember)
    } else if str_is(t, "unused-parameter") {
        Ok(RuleId::UnusedParameter)
    } else if str_is(t, "expected-unused-but-used") {
        Ok(RuleId::ExpectedUnusedButUsed)
    } else if str_is(t, "missing-suppression-reason") {
        Ok(RuleId::MissingSuppressionReason)
    } else if str_is(t, "high-complexity") {
        Ok(RuleId::HighComplexity)
    } else if str_is(t, "large-function") {
        Ok(RuleId::LargeFunction)
    } else if str_is(t, "banned-import") {
        Ok(RuleId::BannedImport)
    } else if str_is(t, "banned-call") {
        Ok(RuleId::BannedCall)
    } else if str_is(t, "banned-effect") {
        Ok(RuleId::BannedEffect)
    } else if str_is(t, "boundary-violation") {
        Ok(RuleId::BoundaryViolation)
    } else if str_is(t, "duplicate-code") {
        Ok(RuleId::DuplicateCode)
    } else if str_is(t, "unused-css-token") {
        Ok(RuleId::UnusedCssToken)
    } else if str_is(t, "broken-css-reference") {
        Ok(RuleId::BrokenCssReference)
    } else if str_is(t, "unused-css-class") {
        Ok(RuleId::UnusedCssClass)
    } else if str_is(t, "unused-dependency") {
        Ok(RuleId::UnusedDependency)
    } else if str_is(t, "circular-imports") {
        Ok(RuleId::CircularImports)
    } else if str_is(t, "only-used-in-tests") {
        Ok(RuleId::OnlyUsedInTests)
    } else {
        Err(cat3("unknown rule '", t, "'"))
    }
}


/// The subcommands that narrow the report to a fixed set of rules; `Other`
/// stands for every other subcommand.
#[derive(Debug, Clone, Copy, PartialEq, Eq, Structural)]
pub enum CommandKind {
    Dead,
    Cycles,
    Deps,
    Dupes,
    Fix,
    Other,
}

/// The rules a subcommand reports before `--filter`; `None` for all rules.
pub open spec fn base_rules(command: Option<CommandKind>) -> Option<Seq<RuleId>> {
    match command {
        Some(CommandKind::Dead) => Some(
            seq![RuleId::UnusedFile, RuleId::UnusedExport, RuleId::UnusedImport, RuleId::OnlyUsedInTests],
        ),
        Some(CommandKind::Cycles) => Some(seq![RuleId::CircularImports]),
        Some(CommandKind::Deps) => Some(seq![RuleId::UnusedDependency]),
        Some(CommandKind::Dupes) => Some(seq![RuleId::DuplicateCode]),
        Some(CommandKind::Fix) => Some(
            seq![
                RuleId::UnusedFile,
                RuleId::UnusedExport,
                RuleId::UnusedType,
                RuleId::UnusedImport,
                RuleId::UnusedDependency,
            ],
        ),
        _ => None,
    }
}

fn base_rule_list(command: Option<CommandKind>) -> (r: Option<Vec<RuleId>>)
    ensures
        r matches Some(v) ==> base_rules(command) == Some(v@),
        r is None <==> base_rules(command) is None,
{
    match command {
        Some(CommandKind::Dead) => Some(
            vec![RuleId::UnusedFile, RuleId::UnusedExport, RuleId::UnusedImport, RuleId::OnlyUsedInTests],
        ),
        Some(CommandKind::Cycles) => Some(vec![RuleId::CircularImports]),
        Some(CommandKind::Deps) => Some(vec![RuleId::UnusedDependency]),
        Some(CommandKind::Dupes) => Some(vec![RuleId::DuplicateCode]),
        Some(CommandKind::Fix) => Some(
            vec![
                RuleId::UnusedFile,
                RuleId::UnusedExport,
                RuleId::UnusedType,
                RuleId::UnusedImport,
                RuleId::UnusedDependency,
            ],
        ),
        _ => None,
    }
}

/// The rules named by `--filter`, in order, or the error of the first name
/// that is no rule.
pub open spec fn parsed_rules(names: Seq<String>) -> Result<Seq<RuleId>, Seq<char>>
    decreases names.len(),
{
    if names.len() == 0 {
        Ok(Seq::empty())
    } else {
        match parsed_rules(names.drop_last()) {
            Err(e) => Err(e),
            Ok(rs) => match rule_named(trim(names.last()@)) {
                Some(r) => Ok(rs.push(r)),
                None => Err(unknown_rule_error(names.last()@)),
            },
        }
    }
}

/// The rules of `s` in the order of their first occurrence, each once.
pub open spec fn distinct_rules(s: Seq<RuleId>) -> Seq<RuleId>
    decreases s.len(),
{
    if s.len() == 0 {
        Seq::empty()
    } else {
        let d = distinct_rules(s.drop_last());
        if d.contains(s.last()) {
            d
        } else {
            d.push(s.last())
        }
    }
}

/// The rules of `base` that also occur in `wanted`, in the order of `base`.
pub open spec fn kept_rules(base: Seq<RuleId>, wanted: Seq<RuleId>) -> Seq<RuleId>
    decreases base.len(),
{
    if base.len() == 0 {
        Seq::empty()
    } else {
        let k = kept_rules(base.drop_last(), wanted);
        if wanted.contains(base.last()) {
            k.push(base.last())
        } else {
            k
        }
    }
}

/// The rules a run reports: those of the subcommand, narrowed to the
/// `--filter` names when there are any (with no subcommand rules, exactly the
/// named rules, each once); `None` for all rules.
pub open spec fn selected_rules(command: Option<CommandKind>, names: Seq<String>) -> Result<
    Option<Seq<RuleId>>,
    Seq<char>,
> {
    if names.len() == 0 {
        Ok(base_rules(command))
    } else {
        match parsed_rules(names) {
            Err(e) => Err(e),
            Ok(wanted) => match base_rules(command) {
                Some(b) => Ok(Some(kept_rules(b, wanted))),
                None => Ok(Some(distinct_rules(wanted))),
            },
        }
    }
}

proof fn lemma_parsed_error_stays(names: Seq<String>, k: int)
    requires
        0 <= k <= names.len(),
        parsed_rules(names.take(k)) is Err,
    ensures
        parsed_rules(names) == parsed_rules(names.take(k)),
    decreases names.len() - k,
{
    if k < names.len() {
        assert(names.take(k + 1).drop_last() =~= names.take(k));
        lemma_parsed_error_stays(names, k + 1);
    } else {
        assert(names.take(k) =~= names);
    }
}

fn has_rule(v: &Vec<RuleId>, x: RuleId) -> (r: bool)
    ensures
        r == v@.contains(x),
{
    let mut i: usize = 0;
    while i < v.len()
        invariant
            i <= v@.len(),
            forall|j: int| 0 <= j < i ==> v@[j] != x,
        decreases v@.len() - i,
    {
        if v[i] == x {
            return true;
        }
        i += 1;
    }
    false
}

/// The rules a run reports (see `selected_rules`); an unknown `--filter` name
/// is an error.
pub fn rule_filter(command: Option<CommandKind>, filter: &Vec<String>) -> (r: Result<Option<Vec<RuleId>>, String>)
    ensures
        match selected_rules(command, filter@) {
            Ok(Some(s)) => r matches Ok(Some(v)) && v@ == s,
            Ok(None) => r matches Ok(None),
            Err(e) => r matches Err(m) && m@ == e,
        },
{
    if filter.len() == 0 {
        return Ok(base_rule_list(command));
    }
    let mut wanted: Vec<RuleId> = Vec::new();
    let mut i: usize = 0;
    while i < filter.len()
        invariant
            i <= filter@.len(),
            parsed_rules(filter@.take(i as int)) == Ok::<Seq<RuleId>, Seq<char>>(wanted@),
        decreases filter@.len() - i,
    {
        assert(filter@.take(i + 1).drop_last() =~= filter@.take(i as int));
        match parse_rule(filter[i].as_str()) {
            Ok(rule) => {
                wanted.push(rule);
            },
            Err(e) => {
                proof {
                    lemma_parsed_error_stays(filter@, i + 1);
                }
                return Err(e);
            },
        }
        i += 1;
    }
    assert(filter@.take(filter@.len() as int) =~= filter@);
    match base_rule_list(command) {
        Some(base) => {
            let mut out: Vec<RuleId> = Vec::new();
            let mut k: usize = 0;
            while k < base.len()
                invariant
                    k <= base@.len(),
                    out@ == kept_rules(base@.take(k as int), wanted@),
                decreases base@.len() - k,
            {
                assert(base@.take(k + 1).drop_last() =~= base@.take(k as int));
                if has_rule(&wanted, base[k]) {
                    out.push(base[k]);
                }
                k += 1;
            }
            assert(base@.take(base@.len() as int) =~= base@);
            Ok(Some(out))
        },
        None => {
            let mut out: Vec<RuleId> = Vec::new();
            let mut k: usize = 0;
            while k < wanted.len()
                invariant
                    k <= wanted@.len(),
                    out@ == distinct_rules(wanted@.take(k as int)),
                decreases wanted@.len() - k,
            {
                assert(wanted@.take(k + 1).drop_last() =~= wanted@.take(k as int));
                if !has_rule(&out, wanted[k]) {
                    out.push(wanted[k]);
                }
                k += 1;
            }
            assert(wanted@.take(wanted@.len() as int) =~= wanted@);
            Ok(Some(out))
        },
    }
}

/// The rules `fix` may act on.
pub open spec fn autofix_rule(rule: RuleId) -> bool {
    rule == RuleId::UnusedFile || rule == RuleId::UnusedImport || rule == RuleId::UnusedExport
        || rule == RuleId::UnusedType || rule == RuleId::UnusedDependency
}

/// Whether `fix` may act on findings of this rule.
pub fn is_autofix_rule(rule: RuleId) -> (r: bool)
    ensures
        r == autofix_rule(rule),
{
    match rule {
        RuleId::UnusedFile | RuleId::UnusedImport | RuleId::UnusedExport | RuleId::UnusedType
        | RuleId::UnusedDependency => true,
        _ => false,
    }
}

/// The findings of `v` whose rule `fix` may act on, in order.
pub open spec fn autofix_views(v: Seq<Finding>) -> Seq<FindingView> {
    flat(
        v.len() as int,
        |i: int| if autofix_rule(v[i].rule) { seq![v[i]@] } else { Seq::empty() },
    )
}

/// The findings that `fix` may act on, in order.
pub fn autofixable(findings: &Vec<Finding>) -> (r: Vec<Finding>)
    ensures
        views(r@) == autofix_views(findings@),
{
    let mut out: Vec<Finding> = Vec::new();
    let mut i: usize = 0;
    while i < findings.len()
        invariant
            i <= findings@.len(),
            views(out@) == flat(
                i as int,
                |j: int| if autofix_rule(findings@[j].rule) { seq![findings@[j]@] } else { Seq::empty() },
            ),
        decreases findings@.len() - i,
    {
        if is_autofix_rule(findings[i].rule) {
            let f = findings[i].duplicate();
            proof {
                lemma_views_push(out@, f);
            }
            out.push(f);
        }
        i += 1;
    }
    out
}

/// The options of a `fix` run given on the command line.
pub struct FixRunOptions {
    pub dry_run: bool,
    pub include_deps: bool,
}

impl FixRunOptions {
    /// The fix options of such a run: high-confidence fixes only.
    pub fn fix_options(&self) -> (r: FixOptions)
        ensures
            r.dry_run == self.dry_run,
            r.min_confidence == Confidence::High,
            r.include_deps == self.include_deps,
    {
        FixOptions { dry_run: self.dry_run, min_confidence: Confidence::High, include_deps: self.include_deps }
    }
}


/// Every rule has an explanation under its own name.
pub proof fn law_every_rule_is_explained(rule: RuleId)
    ensures
        explanation(rule_name(rule)) is Some,
{
}

/// `pat` occurs in `text`.
pub open spec fn mentions(text: Seq<char>, pat: Seq<char>) -> bool {
    exists|i: int| 0 <= i && i + pat.len() <= text.len() && #[trigger] text.subrange(i, i + pat.len()) == pat
}

proof fn lemma_mentions_at(text: Seq<char>, pat: Seq<char>, i: int)
    requires
        0 <= i,
        i + pat.len() <= text.len(),
        text.subrange(i, i + pat.len()) =~= pat,
    ensures
        mentions(text, pat),
{
}

/// A mention stays one when text is put before or after it.
proof fn lemma_mentions_within(a: Seq<char>, text: Seq<char>, b: Seq<char>, pat: Seq<char>)
    requires
        mentions(text, pat),
    ensures
        mentions(a + text + b, pat),
{
    let i = choose|i: int| 0 <= i && i + pat.len() <= text.len() && #[trigger] text.subrange(i, i + pat.len()) == pat;
    lemma_mentions_at(a + text + b, pat, a.len() + i);
}

/// Each name of a comma-joined list occurs in it.
proof fn lemma_joined_mentions(names: Seq<Seq<char>>, k: int)
    requires
        0 <= k < names.len(),
    ensures
        mentions(comma_joined(names), names[k]),
    decreases names.len(),
{
    reveal_strlit(", ");
    let n = names.len() as int;
    if n == 1 {
        lemma_mentions_at(comma_joined(names), names[0], 0);
    } else {
        let head = comma_joined(names.drop_last());
        if k == n - 1 {
            lemma_mentions_at(head + ", "@ + names.last(), names.last(), head.len() + 2int);
        } else {
            lemma_joined_mentions(names.drop_last(), k);
            assert(names.drop_last()[k] == names[k]);
            lemma_mentions_within(Seq::empty(), head, ", "@ + names.last(), names[k]);
            assert(Seq::<char>::empty() + head + (", "@ + names.last()) =~= comma_joined(names));
        }
    }
}

/// Every explanation names the rule it was asked for, and none opens like
/// the answer to an unknown name.
proof fn lemma_explanation_names(n: Seq<char>)
    ensures
        explanation(n) matches Some(t) ==> mentions(t, n) && t.len() > 0 && t[0] != 'U',
{
    reveal_strlit("unused-file");
    reveal_strlit("unused-export");
    reveal_strlit("unused-type");
    reveal_strlit("unused-import");
    reveal_strlit("unused-enum-member");
    reveal_strlit("unused-class-member");
    reveal_strlit("unused-parameter");
    reveal_strlit("expected-unused-but-used");
    reveal_strlit("missing-suppression-reason");
    reveal_strlit("high-complexity");
    reveal_strlit("large-function");
    reveal_strlit("banned-import");
    reveal_strlit("banned-call");
    reveal_strlit("banned-effect");
    reveal_strlit("boundary-violation");
    reveal_strlit("duplicate-code");
    reveal_strlit("unused-css-token");
    reveal_strlit("broken-css-reference");
    reveal_strlit("unused-css-class");
    reveal_strlit("unused-dependency");
    reveal_strlit("circular-imports");
    reveal_strlit("only-used-in-tests");
    reveal_strlit("CSS liveness (Slice 1) — ");
    reveal_strlit(" / ");
    if let Some(t) = explanation(n) {
        if n == "unused-css-token"@ || n == "broken-css-reference"@ || n == "unused-css-class"@ {
            assert(t == css_text());
            let a = ABOUT_CSS_LIVENESS@;
            let x = "unused-css-token"@;
            let y = "broken-css-reference"@;
            let z = "unused-css-class"@;
            let b = ABOUT_CSS_TOKEN@;
            let c = ABOUT_CSS_REFERENCE@;
            lemma_mentions_at(t, x, a.len() as int);
            lemma_mentions_at(t, y, (a.len() + x.len() + b.len()) as int);
            lemma_mentions_at(t, z, (a.len() + x.len() + b.len() + y.len() + c.len()) as int);
            assert(a[0] == 'C');
            assert(t[0] == a[0]);
        } else if n == "banned-import"@ || n == "banned-call"@ || n == "banned-effect"@ {
            assert(n[0] == 'b');
            assert(t == policy_text());
            let x = "banned-import"@;
            let y = "banned-call"@;
            lemma_mentions_at(t, x, 0);
            lemma_mentions_at(t, y, (x.len() + 3) as int);
            lemma_mentions_at(t, "banned-effect"@, (x.len() + 3 + y.len() + 3) as int);
            assert(t[0] == x[0]);
        } else {
            assert(t.subrange(0, n.len() as int) =~= n);
            assert(t[0] == n[0]);
            lemma_mentions_at(t, n, 0);
        }
    }
}

/// A rule's own name is already trimmed.
proof fn lemma_rule_name_trimmed(rule: RuleId)
    ensures
        trim(rule_name(rule)) == rule_name(rule),
{
    match rule {
        RuleId::UnusedFile => { reveal_strlit("unused-file"); },
        RuleId::UnusedExport => { reveal_strlit("unused-export"); },
        RuleId::UnusedType => { reveal_strlit("unused-type"); },
        RuleId::UnusedImport => { reveal_strlit("unused-import"); },
        RuleId::UnusedEnumMember => { reveal_strlit("unused-enum-member"); },
        RuleId::UnusedClassMember => { reveal_strlit("unused-class-member"); },
        RuleId::UnusedParameter => { reveal_strlit("unused-parameter"); },
        RuleId::ExpectedUnusedButUsed => { reveal_strlit("expected-unused-but-used"); },
        RuleId::MissingSuppressionReason => { reveal_strlit("missing-suppression-reason"); },
        RuleId::HighComplexity => { reveal_strlit("high-complexity"); },
        RuleId::LargeFunction => { reveal_strlit("large-function"); },
        RuleId::BannedImport => { reveal_strlit("banned-import"); },
        RuleId::BannedCall => { reveal_strlit("banned-call"); },
        RuleId::BannedEffect => { reveal_strlit("banned-effect"); },
        RuleId::BoundaryViolation => { reveal_strlit("boundary-violation"); },
        RuleId::DuplicateCode => { reveal_strlit("duplicate-code"); },
        RuleId::UnusedCssToken => { reveal_strlit("unused-css-token"); },
        RuleId::BrokenCssReference => { reveal_strlit("broken-css-reference"); },
        RuleId::UnusedCssClass => { reveal_strlit("unused-css-class"); },
        RuleId::UnusedDependency => { reveal_strlit("unused-dependency"); },
        RuleId::CircularImports => { reveal_strlit("circular-imports"); },
        RuleId::OnlyUsedInTests => { reveal_strlit("only-used-in-tests"); },
    }
    let n = rule_name(rule);
    crate::scan::lemma_lead_ws(n, 0);
    crate::scan::lemma_trail_ws(n, 0);
    assert(trim(n) =~= n);
}

/// Where a rule stands in the list of all rules.
proof fn lemma_listed(rule: RuleId) -> (k: int)
    ensures
        0 <= k < all_rule_names().len(),
        all_rule_names()[k] == rule_name(rule),
{
    match rule {
        RuleId::UnusedFile => 0,
        RuleId::UnusedExport => 1,
        RuleId::UnusedType => 2,
        RuleId::UnusedImport => 3,
        RuleId::UnusedEnumMember => 4,
        RuleId::UnusedClassMember => 5,
        RuleId::UnusedParameter => 6,
        RuleId::ExpectedUnusedButUsed => 7,
        RuleId::MissingSuppressionReason => 8,
        RuleId::HighComplexity => 9,
        RuleId::LargeFunction => 10,
        RuleId::BannedImport => 11,
        RuleId::BannedCall => 12,
        RuleId::BannedEffect => 13,
        RuleId::BoundaryViolation => 14,
        RuleId::DuplicateCode => 15,
        RuleId::UnusedCssToken => 16,
        RuleId::BrokenCssReference => 17,
        RuleId::UnusedCssClass => 18,
        RuleId::UnusedDependency => 19,
        RuleId::CircularImports => 20,
        RuleId::OnlyUsedInTests => 21,
    }
}

/// For every rule, `explain` of its name (`as_str`, whose text is
/// `rule_name`) answers with a text (`explain_text`) that contains the name
/// and does not open as for an unknown rule; `explain(s)` is `explain` of `s`
/// trimmed; and for a trimmed text that is no rule's name the answer opens
/// with `Unknown rule '` and that text, and names every rule.
pub proof fn law_explain_names_every_rule(rule: RuleId, s: Seq<char>)
    ensures
        mentions(explain_text(rule_name(rule)), rule_name(rule)),
        !starts_with(explain_text(rule_name(rule)), UNKNOWN_RULE@),
        explain_text(s) == explain_text(trim(s)),
        explanation(trim(s)) is None ==> {
            &&& starts_with(explain_text(s), UNKNOWN_RULE@ + trim(s))
            &&& forall|r: RuleId| mentions(explain_text(s), #[trigger] rule_name(r))
        },
{
    reveal_strlit("Unknown rule '");
    lemma_rule_name_trimmed(rule);
    law_every_rule_is_explained(rule);
    lemma_explanation_names(rule_name(rule));
    let t = explain_text(rule_name(rule));
    assert(UNKNOWN_RULE@[0] == 'U');
    if starts_with(t, UNKNOWN_RULE@) {
        assert(t.take(UNKNOWN_RULE@.len() as int)[0] == t[0]);
    }
    crate::scan::lemma_trim_idempotent(s);
    if explanation(trim(s)) is None {
        let head = UNKNOWN_RULE@ + trim(s);
        assert(explain_text(s) =~= head + known_rules_text());
        assert(explain_text(s).take(head.len() as int) =~= head);
        assert forall|r: RuleId| mentions(explain_text(s), #[trigger] rule_name(r)) by {
            let k = lemma_listed(r);
            lemma_joined_mentions(all_rule_names(), k);
            lemma_mentions_within(head + KNOWN_RULES@, comma_joined(all_rule_names()), "."@, rule_name(r));
            assert(head + KNOWN_RULES@ + comma_joined(all_rule_names()) + "."@ =~= explain_text(s));
        }
    }
}

/// `parse_rule` (which answers by `rule_named` of its argument trimmed)
/// gives every rule back from its name (`as_str`, whose text is
/// `rule_name`), with any whitespace around it, and fails exactly on the
/// texts whose trimmed form is no rule's name.
pub proof fn law_parse_rule_round_trip(rule: RuleId, pad_before: Seq<char>, pad_after: Seq<char>, s: Seq<char>)
    requires
        forall|i: int| 0 <= i < pad_before.len() ==> is_ws(#[trigger] pad_before[i]),
        forall|i: int| 0 <= i < pad_after.len() ==> is_ws(#[trigger] pad_after[i]),
    ensures
        rule_named(trim(pad_before + rule_name(rule) + pad_after)) == Some(rule),
        rule_named(trim(s)) is None <==> forall|r: RuleId| trim(s) != #[trigger] rule_name(r),
{
    lemma_rule_name_trimmed(rule);
    law_rule_names_parse_back(rule);
    lemma_rule_name_nonempty(rule);
    crate::scan::lemma_trim_padded(pad_before, rule_name(rule), pad_after);
    let t = trim(s);
    if rule_named(t) is None {
        assert forall|r: RuleId| t != #[trigger] rule_name(r) by {
            law_rule_names_parse_back(r);
        }
    } else {
        let r0 = rule_named(t).unwrap();
        assert(t == rule_name(r0));
    }
}

proof fn lemma_rule_name_nonempty(rule: RuleId)
    ensures
        rule_name(rule).len() > 0,
{
    lemma_rule_name_trimmed(rule);
    reveal_strlit("unused-file");
    reveal_strlit("unused-export");
    reveal_strlit("unused-type");
    reveal_strlit("unused-import");
    reveal_strlit("unused-enum-member");
    reveal_strlit("unused-class-member");
    reveal_strlit("unused-parameter");
    reveal_strlit("expected-unused-but-used");
    reveal_strlit("missing-suppression-reason");
    reveal_strlit("high-complexity");
    reveal_strlit("large-function");
    reveal_strlit("banned-import");
    reveal_strlit("banned-call");
    reveal_strlit("banned-effect");
    reveal_strlit("boundary-violation");
    reveal_strlit("duplicate-code");
    reveal_strlit("unused-css-token");
    reveal_strlit("broken-css-reference");
    reveal_strlit("unused-css-class");
    reveal_strlit("unused-dependency");
    reveal_strlit("circular-imports");
    reveal_strlit("only-used-in-tests");
}

/// No two rules share a name (`as_str`).
pub proof fn law_rule_names_are_distinct(a: RuleId, b: RuleId)
    ensures
        rule_name(a) == rule_name(b) ==> a == b,
{
    law_rule_names_parse_back(a);
    law_rule_names_parse_back(b);
}

/// Parsing a rule's own name gives the rule back.
pub proof fn law_rule_names_parse_back(rule: RuleId)
    ensures
        rule_named(rule_name(rule)) == Some(rule),
{
    match rule {
        RuleId::UnusedFile => {},
        RuleId::UnusedExport => {
            assert("unused-export"@ != "unused-file"@) by { reveal_strlit("unused-export"); reveal_strlit("unused-file"); assert("unused-export"@.len() != "unused-file"@.len()); }
        },
        RuleId::UnusedType => {
            assert("unused-type"@ != "unused-file"@) by { reveal_strlit("unused-type"); reveal_strlit("unused-file"); assert("unused-type"@[7] != "unused-file"@[7]); }
            assert("unused-type"@ != "unused-export"@) by { reveal_strlit("unused-type"); reveal_strlit("unused-export"); assert("unused-type"@.len() != "unused-export"@.len()); }
        },
        RuleId::UnusedImport => {
            assert("unused-import"@ != "unused-file"@) by { reveal_strlit("unused-import"); reveal_strlit("unused-file"); assert("unused-import"@.len() != "unused-file"@.len()); }
            assert("unused-import"@ != "unused-export"@) by { reveal_strlit("unused-import"); reveal_strlit("unused-export"); assert("unused-import"@[7] != "unused-export"@[7]); }
            assert("unused-import"@ != "unused-type"@) by { reveal_strlit("unused-import"); reveal_strlit("unused-type"); assert("unused-import"@.len() != "unused-type"@.len()); }
        },
        RuleId::UnusedEnumMember => {
            assert("unused-enum-member"@ != "unused-file"@) by { reveal_strlit("unused-enum-member"); reveal_strlit("unused-file"); assert("unused-enum-member"@.len() != "unused-file"@.len()); }
            assert("unused-enum-member"@ != "unused-export"@) by { reveal_strlit("unused-enum-member"); reveal_strlit("unused-export"); assert("unused-enum-member"@.len() != "unused-export"@.len()); }
            assert("unused-enum-member"@ != "unused-type"@) by { reveal_strlit("unused-enum-member"); reveal_strlit("unused-type"); assert("unused-enum-member"@.len() != "unused-type"@.len()); }
            assert("unused-enum-member"@ != "unused-import"@) by { reveal_strlit("unused-enum-member"); reveal_strlit("unused-import"); assert("unused-enum-member"@.len() != "unused-import"@.len()); }
        },
        RuleId::UnusedClassMember => {
            assert("unused-class-member"@ != "unused-file"@) by { reveal_strlit("unused-class-member"); reveal_strlit("unused-file"); assert("unused-class-member"@.len() != "unused-file"@.len()); }
            assert("unused-class-member"@ != "unused-export"@) by { reveal_strlit("unused-class-member"); reveal_strlit("unused-export"); assert("unused-class-member"@.len() != "unused-export"@.len()); }
            assert("unused-class-member"@ != "unused-type"@) by { reveal_strlit("unused-class-member"); reveal_strlit("unused-type"); assert("unused-class-member"@.len() != "unused-type"@.len()); }
            assert("unused-class-member"@ != "unused-import"@) by { reveal_strlit("unused-class-member"); reveal_strlit("unused-import"); assert("unused-class-member"@.len() != "unused-import"@.len()); }
            assert("unused-class-member"@ != "unused-enum-member"@) by { reveal_strlit("unused-class-member"); reveal_strlit("unused-enum-member"); assert("unused-class-member"@.len() != "unused-enum-member"@.len()); }
        },
        RuleId::UnusedParameter => {
            assert("unused-parameter"@ != "unused-file"@) by { reveal_strlit("unused-parameter"); reveal_strlit("unused-file"); assert("unused-parameter"@.len() != "unused-file"@.len()); }
            assert("unused-parameter"@ != "unused-export"@) by { reveal_strlit("unused-parameter"); reveal_strlit("unused-export"); assert("unused-parameter"@.len() != "unused-export"@.len()); }
            assert("unused-parameter"@ != "unused-type"@) by { reveal_strlit("unused-parameter"); reveal_strlit("unused-type"); assert("unused-parameter"@.len() != "unused-type"@.len()); }
            assert("unused-parameter"@ != "unused-import"@) by { reveal_strlit("unused-parameter"); reveal_strlit("unused-import"); assert("unused-parameter"@.len() != "unused-import"@.len()); }
            assert("unused-parameter"@ != "unused-enum-member"@) by { reveal_strlit("unused-parameter"); reveal_strlit("unused-enum-member"); assert("unused-parameter"@.len() != "unused-enum-member"@.len()); }
            assert("unused-parameter"@ != "unused-class-member"@) by { reveal_strlit("unused-parameter"); reveal_strlit("unused-class-member"); assert("unused-parameter"@.len() != "unused-class-member"@.len()); }
        },
        RuleId::ExpectedUnusedButUsed => {
            assert("expected-unused-but-used"@ != "unused-file"@) by { reveal_strlit("expected-unused-but-used"); reveal_strlit("unused-file"); assert("expected-unused-but-used"@.len() != "unused-file"@.len()); }
            assert("expected-unused-but-used"@ != "unused-export"@) by { reveal_strlit("expected-unused-but-used"); reveal_strlit("unused-export"); assert("expected-unused-but-used"@.len() != "unused-export"@.len()); }
            assert("expected-unused-but-used"@ != "unused-type"@) by { reveal_strlit("expected-unused-but-used"); reveal_strlit("unused-type"); assert("expected-unused-but-used"@.len() != "unused-type"@.len()); }
            assert("expected-unused-but-used"@ != "unused-import"@) by { reveal_strlit("expected-unused-but-used"); reveal_strlit("unused-import"); assert("expected-unused-but-used"@.len() != "unused-import"@.len()); }
            assert("expected-unused-but-used"@ != "unused-enum-member"@) by { reveal_strlit("expected-unused-but-used"); reveal_strlit("unused-enum-member"); assert("expected-unused-but-used"@.len() != "unused-enum-member"@.len()); }
            assert("expected-unused-but-used"@ != "unused-class-member"@) by { reveal_strlit("expected-unused-but-used"); reveal_strlit("unused-class-member"); assert("expected-unused-but-used"@.len() != "unused-class-member"@.len()); }
            assert("expected-unused-but-used"@ != "unused-parameter"@) by { reveal_strlit("expected-unused-but-used"); reveal_strlit("unused-parameter"); assert("expected-unused-but-used"@.len() != "unused-parameter"@.len()); }
        },
        RuleId::MissingSuppressionReason => {
            assert("missing-suppression-reason"@ != "unused-file"@) by { reveal_strlit("missing-suppression-reason"); reveal_strlit("unused-file"); assert("missing-suppression-reason"@.len() != "unused-file"@.len()); }
            assert("missing-suppression-reason"@ != "unused-export"@) by { reveal_strlit("missing-suppression-reason"); reveal_strlit("unused-export"); assert("missing-suppression-reason"@.len() != "unused-export"@.len()); }
            assert("missing-suppression-reason"@ != "unused-type"@) by { reveal_strlit("missing-suppression-reason"); reveal_strlit("unused-type"); assert("missing-suppression-reason"@.len() != "unused-type"@.len()); }
            assert("missing-suppression-reason"@ != "unused-import"@) by { reveal_strlit("missing-suppression-reason"); reveal_strlit("unused-import"); assert("missing-suppression-reason"@.len() != "unused-import"@.len()); }
            assert("missing-suppression-reason"@ != "unused-enum-member"@) by { reveal_strlit("missing-suppression-reason"); reveal_strlit("unused-enum-member"); assert("missing-suppression-reason"@.len() != "unused-enum-member"@.len()); }
            assert("missing-suppression-reason"@ != "unused-class-member"@) by { reveal_strlit("missing-suppression-reason"); reveal_strlit("unused-class-member"); assert("missing-suppression-reason"@.len() != "unused-class-member"@.len()); }
            assert("missing-suppression-reason"@ != "unused-parameter"@) by { reveal_strlit("missing-suppression-reason"); reveal_strlit("unused-parameter"); assert("missing-suppression-reason"@.len() != "unused-parameter"@.len()); }
            assert("missing-suppression-reason"@ != "expected-unused-but-used"@) by { reveal_strlit("missing-suppression-reason"); reveal_strlit("expected-unused-but-used"); assert("missing-suppression-reason"@.len() != "expected-unused-but-used"@.len()); }
        },
        RuleId::HighComplexity => {
            assert("high-complexity"@ != "unused-file"@) by { reveal_strlit("high-complexity"); reveal_strlit("unused-file"); assert("high-complexity"@.len() != "unused-file"@.len()); }
            assert("high-complexity"@ != "unused-export"@) by { reveal_strlit("high-complexity"); reveal_strlit("unused-export"); assert("high-complexity"@.len() != "unused-export"@.len()); }
            assert("high-complexity"@ != "unused-type"@) by { reveal_strlit("high-complexity"); reveal_strlit("unused-type"); assert("high-complexity"@.len() != "unused-type"@.len()); }
            assert("high-complexity"@ != "unused-import"@) by { reveal_strlit("high-complexity"); reveal_strlit("unused-import"); assert("high-complexity"@.len() != "unused-import"@.len()); }
            assert("high-complexity"@ != "unused-enum-member"@) by { reveal_strlit("high-complexity"); reveal_strlit("unused-enum-member"); assert("high-complexity"@.len() != "unused-enum-member"@.len()); }
            assert("high-complexity"@ != "unused-class-member"@) by { reveal_strlit("high-complexity"); reveal_strlit("unused-class-member"); assert("high-complexity"@.len() != "unused-class-member"@.len()); }
            assert("high-complexity"@ != "unused-parameter"@) by { reveal_strlit("high-complexity"); reveal_strlit("unused-parameter"); assert("high-complexity"@.len() != "unused-parameter"@.len()); }
            assert("high-complexity"@ != "expected-unused-but-used"@) by { reveal_strlit("high-complexity"); reveal_strlit("expected-unused-but-used"); assert("high-complexity"@.len() != "expected-unused-but-used"@.len()); }
            assert("high-complexity"@ != "missing-suppression-reason"@) by { reveal_strlit("high-complexity"); reveal_strlit("missing-suppression-reason"); assert("high-complexity"@.len() != "missing-suppression-reason"@.len()); }
        },
        RuleId::LargeFunction => {
            assert("large-function"@ != "unused-file"@) by { reveal_strlit("large-function"); reveal_strlit("unused-file"); assert("large-function"@.len() != "unused-file"@.len()); }
            assert("large-function"@ != "unused-export"@) by { reveal_strlit("large-function"); reveal_strlit("unused-export"); assert("large-function"@.len() != "unused-export"@.len()); }
            assert("large-function"@ != "unused-type"@) by { reveal_strlit("large-function"); reveal_strlit("unused-type"); assert("large-function"@.len() != "unused-type"@.len()); }
            assert("large-function"@ != "unused-import"@) by { reveal_strlit("large-function"); reveal_strlit("unused-import"); assert("large-function"@.len() != "unused-import"@.len()); }
            assert("large-function"@ != "unused-enum-member"@) by { reveal_strlit("large-function"); reveal_strlit("unused-enum-member"); assert("large-function"@.len() != "unused-enum-member"@.len()); }
            assert("large-function"@ != "unused-class-member"@) by { reveal_strlit("large-function"); reveal_strlit("unused-class-member"); assert("large-function"@.len() != "unused-class-member"@.len()); }
            assert("large-function"@ != "unused-parameter"@) by { reveal_strlit("large-function"); reveal_strlit("unused-parameter"); assert("large-function"@.len() != "unused-parameter"@.len()); }
            assert("large-function"@ != "expected-unused-but-used"@) by { reveal_strlit("large-function"); reveal_strlit("expected-unused-but-used"); assert("large-function"@.len() != "expected-unused-but-used"@.len()); }
            assert("large-function"@ != "missing-suppression-reason"@) by { reveal_strlit("large-function"); reveal_strlit("missing-suppression-reason"); assert("large-function"@.len() != "missing-suppression-reason"@.len()); }
            assert("large-function"@ != "high-complexity"@) by { reveal_strlit("large-function"); reveal_strlit("high-complexity"); assert("large-function"@.len() != "high-complexity"@.len()); }
        },
        RuleId::BannedImport => {
            assert("banned-import"@ != "unused-file"@) by { reveal_strlit("banned-import"); reveal_strlit("unused-file"); assert("banned-import"@.len() != "unused-file"@.len()); }
            assert("banned-import"@ != "unused-export"@) by { reveal_strlit("banned-import"); reveal_strlit("unused-export"); assert("banned-import"@[0] != "unused-export"@[0]); }
            assert("banned-import"@ != "unused-type"@) by { reveal_strlit("banned-import"); reveal_strlit("unused-type"); assert("banned-import"@.len() != "unused-type"@.len()); }
            assert("banned-import"@ != "unused-import"@) by { reveal_strlit("banned-import"); reveal_strlit("unused-import"); assert("banned-import"@[0] != "unused-import"@[0]); }
            assert("banned-import"@ != "unused-enum-member"@) by { reveal_strlit("banned-import"); reveal_strlit("unused-enum-member"); assert("banned-import"@.len() != "unused-enum-member"@.len()); }
            assert("banned-import"@ != "unused-class-member"@) by { reveal_strlit("banned-import"); reveal_strlit("unused-class-member"); assert("banned-import"@.len() != "unused-class-member"@.len()); }
            assert("banned-import"@ != "unused-parameter"@) by { reveal_strlit("banned-import"); reveal_strlit("unused-parameter"); assert("banned-import"@.len() != "unused-parameter"@.len()); }
            assert("banned-import"@ != "expected-unused-but-used"@) by { reveal_strlit("banned-import"); reveal_strlit("expected-unused-but-used"); assert("banned-import"@.len() != "expected-unused-but-used"@.len()); }
            assert("banned-import"@ != "missing-suppression-reason"@) by { reveal_strlit("banned-import"); reveal_strlit("missing-suppression-reason"); assert("banned-import"@.len() != "missing-suppression-reason"@.len()); }
            assert("banned-import"@ != "high-complexity"@) by { reveal_strlit("banned-import"); reveal_strlit("high-complexity"); assert("banned-import"@.len() != "high-complexity"@.len()); }
            assert("banned-import"@ != "large-function"@) by { reveal_strlit("banned-import"); reveal_strlit("large-function"); assert("banned-import"@.len() != "large-function"@.len()); }
        },
        RuleId::BannedCall => {
            assert("banned-call"@ != "unused-file"@) by { reveal_strlit("banned-call"); reveal_strlit("unused-file"); assert("banned-call"@[0] != "unused-file"@[0]); }
            assert("banned-call"@ != "unused-export"@) by { reveal_strlit("banned-call"); reveal_strlit("unused-export"); assert("banned-call"@.len() != "unused-export"@.len()); }
            assert("banned-call"@ != "unused-type"@) by { reveal_strlit("banned-call"); reveal_strlit("unused-type"); assert("banned-call"@[0] != "unused-type"@[0]); }
            assert("banned-call"@ != "unused-import"@) by { reveal_strlit("banned-call"); reveal_strlit("unused-import"); assert("banned-call"@.len() != "unused-import"@.len()); }
            assert("banned-call"@ != "unused-enum-member"@) by { reveal_strlit("banned-call"); reveal_strlit("unused-enum-member"); assert("banned-call"@.len() != "unused-enum-member"@.len()); }
            assert("banned-call"@ != "unused-class-member"@) by { reveal_strlit("banned-call"); reveal_strlit("unused-class-member"); assert("banned-call"@.len() != "unused-class-member"@.len()); }
            assert("banned-call"@ != "unused-parameter"@) by { reveal_strlit("banned-call"); reveal_strlit("unused-parameter"); assert("banned-call"@.len() != "unused-parameter"@.len()); }
            assert("banned-call"@ != "expected-unused-but-used"@) by { reveal_strlit("banned-call"); reveal_strlit("expected-unused-but-used"); assert("banned-call"@.len() != "expected-unused-but-used"@.len()); }
            assert("banned-call"@ != "missing-suppression-reason"@) by { reveal_strlit("banned-call"); reveal_strlit("missing-suppression-reason"); assert("banned-call"@.len() != "missing-suppression-reason"@.len()); }
            assert("banned-call"@ != "high-complexity"@) by { reveal_strlit("banned-call"); reveal_strlit("high-complexity"); assert("banned-call"@.len() != "high-complexity"@.len()); }
            assert("banned-call"@ != "large-function"@) by { reveal_strlit("banned-call"); reveal_strlit("large-function"); assert("banned-call"@.len() != "large-function"@.len()); }
            assert("banned-call"@ != "banned-import"@) by { reveal_strlit("banned-call"); reveal_strlit("banned-import"); assert("banned-call"@.len() != "banned-import"@.len()); }
        },
        RuleId::BannedEffect => {
            assert("banned-effect"@ != "unused-file"@) by { reveal_strlit("banned-effect"); reveal_strlit("unused-file"); assert("banned-effect"@.len() != "unused-file"@.len()); }
            assert("banned-effect"@ != "unused-export"@) by { reveal_strlit("banned-effect"); reveal_strlit("unused-export"); assert("banned-effect"@[0] != "unused-export"@[0]); }
            assert("banned-effect"@ != "unused-type"@) by { reveal_strlit("banned-effect"); reveal_strlit("unused-type"); assert("banned-effect"@.len() != "unused-type"@.len()); }
            assert("banned-effect"@ != "unused-import"@) by { reveal_strlit("banned-effect"); reveal_strlit("unused-import"); assert("banned-effect"@[0] != "unused-import"@[0]); }
            assert("banned-effect"@ != "unused-enum-member"@) by { reveal_strlit("banned-effect"); reveal_strlit("unused-enum-member"); assert("banned-effect"@.len() != "unused-enum-member"@.len()); }
            assert("banned-effect"@ != "unused-class-member"@) by { reveal_strlit("banned-effect"); reveal_strlit("unused-class-member"); assert("banned-effect"@.len() != "unused-class-member"@.len()); }
            assert("banned-effect"@ != "unused-parameter"@) by { reveal_strlit("banned-effect"); reveal_strlit("unused-parameter"); assert("banned-effect"@.len() != "unused-parameter"@.len()); }
            assert("banned-effect"@ != "expected-unused-but-used"@) by { reveal_strlit("banned-effect"); reveal_strlit("expected-unused-but-used"); assert("banned-effect"@.len() != "expected-unused-but-used"@.len()); }
            assert("banned-effect"@ != "missing-suppression-reason"@) by { reveal_strlit("banned-effect"); reveal_strlit("missing-suppression-reason"); assert("banned-effect"@.len() != "missing-suppression-reason"@.len()); }
            assert("banned-effect"@ != "high-complexity"@) by { reveal_strlit("banned-effect"); reveal_strlit("high-complexity"); assert("banned-effect"@.len() != "high-complexity"@.len()); }
            assert("banned-effect"@ != "large-function"@) by { reveal_strlit("banned-effect"); reveal_strlit("large-function"); assert("banned-effect"@.len() != "large-function"@.len()); }
            assert("banned-effect"@ != "banned-import"@) by { reveal_strlit("banned-effect"); reveal_strlit("banned-import"); assert("banned-effect"@[7] != "banned-import"@[7]); }
            assert("banned-effect"@ != "banned-call"@) by { reveal_strlit("banned-effect"); reveal_strlit("banned-call"); assert("banned-effect"@.len() != "banned-call"@.len()); }
        },
        RuleId::BoundaryViolation => {
            assert("boundary-violation"@ != "unused-file"@) by { reveal_strlit("boundary-violation"); reveal_strlit("unused-file"); assert("boundary-violation"@.len() != "unused-file"@.len()); }
            assert("boundary-violation"@ != "unused-export"@) by { reveal_strlit("boundary-violation"); reveal_strlit("unused-export"); assert("boundary-violation"@.len() != "unused-export"@.len()); }
            assert("boundary-violation"@ != "unused-type"@) by { reveal_strlit("boundary-violation"); reveal_strlit("unused-type"); assert("boundary-violation"@.len() != "unused-type"@.len()); }
            assert("boundary-violation"@ != "unused-import"@) by { reveal_strlit("boundary-violation"); reveal_strlit("unused-import"); assert("boundary-violation"@.len() != "unused-import"@.len()); }
            assert("boundary-violation"@ != "unused-enum-member"@) by { reveal_strlit("boundary-violation"); reveal_strlit("unused-enum-member"); assert("boundary-violation"@[0] != "unused-enum-member"@[0]); }
            assert("boundary-violation"@ != "unused-class-member"@) by { reveal_strlit("boundary-violation"); reveal_strlit("unused-class-member"); assert("boundary-violation"@.len() != "unused-class-member"@.len()); }
            assert("boundary-violation"@ != "unused-parameter"@) by { reveal_strlit("boundary-violation"); reveal_strlit("unused-parameter"); assert("boundary-violation"@.len() != "unused-parameter"@.len()); }
            assert("boundary-violation"@ != "expected-unused-but-used"@) by { reveal_strlit("boundary-violation"); reveal_strlit("expected-unused-but-used"); assert("boundary-violation"@.len() != "expected-unused-but-used"@.len()); }
            assert("boundary-violation"@ != "missing-suppression-reason"@) by { reveal_strlit("boundary-violation"); reveal_strlit("missing-suppression-reason"); assert("boundary-violation"@.len() != "missing-suppression-reason"@.len()); }
            assert("boundary-violation"@ != "high-complexity"@) by { reveal_strlit("boundary-violation"); reveal_strlit("high-complexity"); assert("boundary-violation"@.len() != "high-complexity"@.len()); }
            assert("boundary-violation"@ != "large-function"@) by { reveal_strlit("boundary-violation"); reveal_strlit("large-function"); assert("boundary-violation"@.len() != "large-function"@.len()); }
            assert("boundary-violation"@ != "banned-import"@) by { reveal_strlit("boundary-violation"); reveal_strlit("banned-import"); assert("boundary-violation"@.len() != "banned-import"@.len()); }
            assert("boundary-violation"@ != "banned-call"@) by { reveal_strlit("boundary-violation"); reveal_strlit("banned-call"); assert("boundary-violation"@.len() != "banned-call"@.len()); }
            assert("boundary-violation"@ != "banned-effect"@) by { reveal_strlit("boundary-violation"); reveal_strlit("banned-effect"); assert("boundary-violation"@.len() != "banned-effect"@.len()); }
        },
        RuleId::DuplicateCode => {
            assert("duplicate-code"@ != "unused-file"@) by { reveal_strlit("duplicate-code"); reveal_strlit("unused-file"); assert("duplicate-code"@.len() != "unused-file"@.len()); }
            assert("duplicate-code"@ != "unused-export"@) by { reveal_strlit("duplicate-code"); reveal_strlit("unused-export"); assert("duplicate-code"@.len() != "unused-export"@.len()); }
            assert("duplicate-code"@ != "unused-type"@) by { reveal_strlit("duplicate-code"); reveal_strlit("unused-type"); assert("duplicate-code"@.len() != "unused-type"@.len()); }
            assert("duplicate-code"@ != "unused-import"@) by { reveal_strlit("duplicate-code"); reveal_strlit("unused-import"); assert("duplicate-code"@.len() != "unused-import"@.len()); }
            assert("duplicate-code"@ != "unused-enum-member"@) by { reveal_strlit("duplicate-code"); reveal_strlit("unused-enum-member"); assert("duplicate-code"@.len() != "unused-enum-member"@.len()); }
            assert("duplicate-code"@ != "unused-class-member"@) by { reveal_strlit("duplicate-code"); reveal_strlit("unused-class-member"); assert("duplicate-code"@.len() != "unused-class-member"@.len()); }
            assert("duplicate-code"@ != "unused-parameter"@) by { reveal_strlit("duplicate-code"); reveal_strlit("unused-parameter"); assert("duplicate-code"@.len() != "unused-parameter"@.len()); }
            assert("duplicate-code"@ != "expected-unused-but-used"@) by { reveal_strlit("duplicate-code"); reveal_strlit("expected-unused-but-used"); assert("duplicate-code"@.len() != "expected-unused-but-used"@.len()); }
            assert("duplicate-code"@ != "missing-suppression-reason"@) by { reveal_strlit("duplicate-code"); reveal_strlit("missing-suppression-reason"); assert("duplicate-code"@.len() != "missing-suppression-reason"@.len()); }
            assert("duplicate-code"@ != "high-complexity"@) by { reveal_strlit("duplicate-code"); reveal_strlit("high-complexity"); assert("duplicate-code"@.len() != "high-complexity"@.len()); }
            assert("duplicate-code"@ != "large-function"@) by { reveal_strlit("duplicate-code"); reveal_strlit("large-function"); assert("duplicate-code"@[0] != "large-function"@[0]); }
            assert("duplicate-code"@ != "banned-import"@) by { reveal_strlit("duplicate-code"); reveal_strlit("banned-import"); assert("duplicate-code"@.len() != "banned-import"@.len()); }
            assert("duplicate-code"@ != "banned-call"@) by { reveal_strlit("duplicate-code"); reveal_strlit("banned-call"); assert("duplicate-code"@.len() != "banned-call"@.len()); }
            assert("duplicate-code"@ != "banned-effect"@) by { reveal_strlit("duplicate-code"); reveal_strlit("banned-effect"); assert("duplicate-code"@.len() != "banned-effect"@.len()); }
            assert("duplicate-code"@ != "boundary-violation"@) by { reveal_strlit("duplicate-code"); reveal_strlit("boundary-violation"); assert("duplicate-code"@.len() != "boundary-violation"@.len()); }
        },
        RuleId::UnusedCssToken => {
            assert("unused-css-token"@ != "unused-file"@) by { reveal_strlit("unused-css-token"); reveal_strlit("unused-file"); assert("unused-css-token"@.len() != "unused-file"@.len()); }
            assert("unused-css-token"@ != "unused-export"@) by { reveal_strlit("unused-css-token"); reveal_strlit("unused-export"); assert("unused-css-token"@.len() != "unused-export"@.len()); }
            assert("unused-css-token"@ != "unused-type"@) by { reveal_strlit("unused-css-token"); reveal_strlit("unused-type"); assert("unused-css-token"@.len() != "unused-type"@.len()); }
            assert("unused-css-token"@ != "unused-import"@) by { reveal_strlit("unused-css-token"); reveal_strlit("unused-import"); assert("unused-css-token"@.len() != "unused-import"@.len()); }
            assert("unused-css-token"@ != "unused-enum-member"@) by { reveal_strlit("unused-css-token"); reveal_strlit("unused-enum-member"); assert("unused-css-token"@.len() != "unused-enum-member"@.len()); }
            assert("unused-css-token"@ != "unused-class-member"@) by { reveal_strlit("unused-css-token"); reveal_strlit("unused-class-member"); assert("unused-css-token"@.len() != "unused-class-member"@.len()); }
            assert("unused-css-token"@ != "unused-parameter"@) by { reveal_strlit("unused-css-token"); reveal_strlit("unused-parameter"); assert("unused-css-token"@[7] != "unused-parameter"@[7]); }
            assert("unused-css-token"@ != "expected-unused-but-used"@) by { reveal_strlit("unused-css-token"); reveal_strlit("expected-unused-but-used"); assert("unused-css-token"@.len() != "expected-unused-but-used"@.len()); }
            assert("unused-css-token"@ != "missing-suppression-reason"@) by { reveal_strlit("unused-css-token"); reveal_strlit("missing-suppression-reason"); assert("unused-css-token"@.len() != "missing-suppression-reason"@.len()); }
            assert("unused-css-token"@ != "high-complexity"@) by { reveal_strlit("unused-css-token"); reveal_strlit("high-complexity"); assert("unused-css-token"@.len() != "high-complexity"@.len()); }
            assert("unused-css-token"@ != "large-function"@) by { reveal_strlit("unused-css-token"); reveal_strlit("large-function"); assert("unused-css-token"@.len() != "large-function"@.len()); }
            assert("unused-css-token"@ != "banned-import"@) by { reveal_strlit("unused-css-token"); reveal_strlit("banned-import"); assert("unused-css-token"@.len() != "banned-import"@.len()); }
            assert("unused-css-token"@ != "banned-call"@) by { reveal_strlit("unused-css-token"); reveal_strlit("banned-call"); assert("unused-css-token"@.len() != "banned-call"@.len()); }
            assert("unused-css-token"@ != "banned-effect"@) by { reveal_strlit("unused-css-token"); reveal_strlit("banned-effect"); assert("unused-css-token"@.len() != "banned-effect"@.len()); }
            assert("unused-css-token"@ != "boundary-violation"@) by { reveal_strlit("unused-css-token"); reveal_strlit("boundary-violation"); assert("unused-css-token"@.len() != "boundary-violation"@.len()); }
            assert("unused-css-token"@ != "duplicate-code"@) by { reveal_strlit("unused-css-token"); reveal_strlit("duplicate-code"); assert("unused-css-token"@.len() != "duplicate-code"@.len()); }
        },
        RuleId::BrokenCssReference => {
            assert("broken-css-reference"@ != "unused-file"@) by { reveal_strlit("broken-css-reference"); reveal_strlit("unused-file"); assert("broken-css-reference"@.len() != "unused-file"@.len()); }
            assert("broken-css-reference"@ != "unused-export"@) by { reveal_strlit("broken-css-reference"); reveal_strlit("unused-export"); assert("broken-css-reference"@.len() != "unused-export"@.len()); }
            assert("broken-css-reference"@ != "unused-type"@) by { reveal_strlit("broken-css-reference"); reveal_strlit("unused-type"); assert("broken-css-reference"@.len() != "unused-type"@.len()); }
            assert("broken-css-reference"@ != "unused-import"@) by { reveal_strlit("broken-css-reference"); reveal_strlit("unused-import"); assert("broken-css-reference"@.len() != "unused-import"@.len()); }
            assert("broken-css-reference"@ != "unused-enum-member"@) by { reveal_strlit("broken-css-reference"); reveal_strlit("unused-enum-member"); assert("broken-css-reference"@.len() != "unused-enum-member"@.len()); }
            assert("broken-css-reference"@ != "unused-class-member"@) by { reveal_strlit("broken-css-reference"); reveal_strlit("unused-class-member"); assert("broken-css-reference"@.len() != "unused-class-member"@.len()); }
            assert("broken-css-reference"@ != "unused-parameter"@) by { reveal_strlit("broken-css-reference"); reveal_strlit("unused-parameter"); assert("broken-css-reference"@.len() != "unused-parameter"@.len()); }
            assert("broken-css-reference"@ != "expected-unused-but-used"@) by { reveal_strlit("broken-css-reference"); reveal_strlit("expected-unused-but-used"); assert("broken-css-reference"@.len() != "expected-unused-but-used"@.len()); }
            assert("broken-css-reference"@ != "missing-suppression-reason"@) by { reveal_strlit("broken-css-reference"); reveal_strlit("missing-suppression-reason"); assert("broken-css-reference"@.len() != "missing-suppression-reason"@.len()); }
            assert("broken-css-reference"@ != "high-complexity"@) by { reveal_strlit("broken-css-reference"); reveal_strlit("high-complexity"); assert("broken-css-reference"@.len() != "high-complexity"@.len()); }
            assert("broken-css-reference"@ != "large-function"@) by { reveal_strlit("broken-css-reference"); reveal_strlit("large-function"); assert("broken-css-reference"@.len() != "large-function"@.len()); }
            assert("broken-css-reference"@ != "banned-import"@) by { reveal_strlit("broken-css-reference"); reveal_strlit("banned-import"); assert("broken-css-reference"@.len() != "banned-import"@.len()); }
            assert("broken-css-reference"@ != "banned-call"@) by { reveal_strlit("broken-css-reference"); reveal_strlit("banned-call"); assert("broken-css-reference"@.len() != "banned-call"@.len()); }
            assert("broken-css-reference"@ != "banned-effect"@) by { reveal_strlit("broken-css-reference"); reveal_strlit("banned-effect"); assert("broken-css-reference"@.len() != "banned-effect"@.len()); }
            assert("broken-css-reference"@ != "boundary-violation"@) by { reveal_strlit("broken-css-reference"); reveal_strlit("boundary-violation"); assert("broken-css-reference"@.len() != "boundary-violation"@.len()); }
            assert("broken-css-reference"@ != "duplicate-code"@) by { reveal_strlit("broken-css-reference"); reveal_strlit("duplicate-code"); assert("broken-css-reference"@.len() != "duplicate-code"@.len()); }
            assert("broken-css-reference"@ != "unused-css-token"@) by { reveal_strlit("broken-css-reference"); reveal_strlit("unused-css-token"); assert("broken-css-reference"@.len() != "unused-css-token"@.len()); }
        },
        RuleId::UnusedCssClass => {
            assert("unused-css-class"@ != "unused-file"@) by { reveal_strlit("unused-css-class"); reveal_strlit("unused-file"); assert("unused-css-class"@.len() != "unused-file"@.len()); }
            assert("unused-css-class"@ != "unused-export"@) by { reveal_strlit("unused-css-class"); reveal_strlit("unused-export"); assert("unused-css-class"@.len() != "unused-export"@.len()); }
            assert("unused-css-class"@ != "unused-type"@) by { reveal_strlit("unused-css-class"); reveal_strlit("unused-type"); assert("unused-css-class"@.len() != "unused-type"@.len()); }
            assert("unused-css-class"@ != "unused-import"@) by { reveal_strlit("unused-css-class"); reveal_strlit("unused-import"); assert("unused-css-class"@.len() != "unused-import"@.len()); }
            assert("unused-css-class"@ != "unused-enum-member"@) by { reveal_strlit("unused-css-class"); reveal_strlit("unused-enum-member"); assert("unused-css-class"@.len() != "unused-enum-member"@.len()); }
            assert("unused-css-class"@ != "unused-class-member"@) by { reveal_strlit("unused-css-class"); reveal_strlit("unused-class-member"); assert("unused-css-class"@.len() != "unused-class-member"@.len()); }
            assert("unused-css-class"@ != "unused-parameter"@) by { reveal_strlit("unused-css-class"); reveal_strlit("unused-parameter"); assert("unused-css-class"@[7] != "unused-parameter"@[7]); }
            assert("unused-css-class"@ != "expected-unused-but-used"@) by { reveal_strlit("unused-css-class"); reveal_strlit("expected-unused-but-used"); assert("unused-css-class"@.len() != "expected-unused-but-used"@.len()); }
            assert("unused-css-class"@ != "missing-suppression-reason"@) by { reveal_strlit("unused-css-class"); reveal_strlit("missing-suppression-reason"); assert("unused-css-class"@.len() != "missing-suppression-reason"@.len()); }
            assert("unused-css-class"@ != "high-complexity"@) by { reveal_strlit("unused-css-class"); reveal_strlit("high-complexity"); assert("unused-css-class"@.len() != "high-complexity"@.len()); }
            assert("unused-css-class"@ != "large-function"@) by { reveal_strlit("unused-css-class"); reveal_strlit("large-function"); assert("unused-css-class"@.len() != "large-function"@.len()); }
            assert("unused-css-class"@ != "banned-import"@) by { reveal_strlit("unused-css-class"); reveal_strlit("banned-import"); assert("unused-css-class"@.len() != "banned-import"@.len()); }
            assert("unused-css-class"@ != "banned-call"@) by { reveal_strlit("unused-css-class"); reveal_strlit("banned-call"); assert("unused-css-class"@.len() != "banned-call"@.len()); }
            assert("unused-css-class"@ != "banned-effect"@) by { reveal_strlit("unused-css-class"); reveal_strlit("banned-effect"); assert("unused-css-class"@.len() != "banned-effect"@.len()); }
            assert("unused-css-class"@ != "boundary-violation"@) by { reveal_strlit("unused-css-class"); reveal_strlit("boundary-violation"); assert("unused-css-class"@.len() != "boundary-violation"@.len()); }
            assert("unused-css-class"@ != "duplicate-code"@) by { reveal_strlit("unused-css-class"); reveal_strlit("duplicate-code"); assert("unused-css-class"@.len() != "duplicate-code"@.len()); }
            assert("unused-css-class"@ != "unused-css-token"@) by { reveal_strlit("unused-css-class"); reveal_strlit("unused-css-token"); assert("unused-css-class"@[11] != "unused-css-token"@[11]); }
            assert("unused-css-class"@ != "broken-css-reference"@) by { reveal_strlit("unused-css-class"); reveal_strlit("broken-css-reference"); assert("unused-css-class"@.len() != "broken-css-reference"@.len()); }
        },
        RuleId::UnusedDependency => {
            assert("unused-dependency"@ != "unused-file"@) by { reveal_strlit("unused-dependency"); reveal_strlit("unused-file"); assert("unused-dependency"@.len() != "unused-file"@.len()); }
            assert("unused-dependency"@ != "unused-export"@) by { reveal_strlit("unused-dependency"); reveal_strlit("unused-export"); assert("unused-dependency"@.len() != "unused-export"@.len()); }
            assert("unused-dependency"@ != "unused-type"@) by { reveal_strlit("unused-dependency"); reveal_strlit("unused-type"); assert("unused-dependency"@.len() != "unused-type"@.len()); }
            assert("unused-dependency"@ != "unused-import"@) by { reveal_strlit("unused-dependency"); reveal_strlit("unused-import"); assert("unused-dependency"@.len() != "unused-import"@.len()); }
            assert("unused-dependency"@ != "unused-enum-member"@) by { reveal_strlit("unused-dependency"); reveal_strlit("unused-enum-member"); assert("unused-dependency"@.len() != "unused-enum-member"@.len()); }
            assert("unused-dependency"@ != "unused-class-member"@) by { reveal_strlit("unused-dependency"); reveal_strlit("unused-class-member"); assert("unused-dependency"@.len() != "unused-class-member"@.len()); }
            assert("unused-dependency"@ != "unused-parameter"@) by { reveal_strlit("unused-dependency"); reveal_strlit("unused-parameter"); assert("unused-dependency"@.len() != "unused-parameter"@.len()); }
            assert("unused-dependency"@ != "expected-unused-but-used"@) by { reveal_strlit("unused-dependency"); reveal_strlit("expected-unused-but-used"); assert("unused-dependency"@.len() != "expected-unused-but-used"@.len()); }
            assert("unused-dependency"@ != "missing-suppression-reason"@) by { reveal_strlit("unused-dependency"); reveal_strlit("missing-suppression-reason"); assert("unused-dependency"@.len() != "missing-suppression-reason"@.len()); }
            assert("unused-dependency"@ != "high-complexity"@) by { reveal_strlit("unused-dependency"); reveal_strlit("high-complexity"); assert("unused-dependency"@.len() != "high-complexity"@.len()); }
            assert("unused-dependency"@ != "large-function"@) by { reveal_strlit("unused-dependency"); reveal_strlit("large-function"); assert("unused-dependency"@.len() != "large-function"@.len()); }
            assert("unused-dependency"@ != "banned-import"@) by { reveal_strlit("unused-dependency"); reveal_strlit("banned-import"); assert("unused-dependency"@.len() != "banned-import"@.len()); }
            assert("unused-dependency"@ != "banned-call"@) by { reveal_strlit("unused-dependency"); reveal_strlit("banned-call"); assert("unused-dependency"@.len() != "banned-call"@.len()); }
            assert("unused-dependency"@ != "banned-effect"@) by { reveal_strlit("unused-dependency"); reveal_strlit("banned-effect"); assert("unused-dependency"@.len() != "banned-effect"@.len()); }
            assert("unused-dependency"@ != "boundary-violation"@) by { reveal_strlit("unused-dependency"); reveal_strlit("boundary-violation"); assert("unused-dependency"@.len() != "boundary-violation"@.len()); }
            assert("unused-dependency"@ != "duplicate-code"@) by { reveal_strlit("unused-dependency"); reveal_strlit("duplicate-code"); assert("unused-dependency"@.len() != "duplicate-code"@.len()); }
            assert("unused-dependency"@ != "unused-css-token"@) by { reveal_strlit("unused-dependency"); reveal_strlit("unused-css-token"); assert("unused-dependency"@.len() != "unused-css-token"@.len()); }
            assert("unused-dependency"@ != "broken-css-reference"@) by { reveal_strlit("unused-dependency"); reveal_strlit("broken-css-reference"); assert("unused-dependency"@.len() != "broken-css-reference"@.len()); }
            assert("unused-dependency"@ != "unused-css-class"@) by { reveal_strlit("unused-dependency"); reveal_strlit("unused-css-class"); assert("unused-dependency"@.len() != "unused-css-class"@.len()); }
        },
        RuleId::CircularImports => {
            assert("circular-imports"@ != "unused-file"@) by { reveal_strlit("circular-imports"); reveal_strlit("unused-file"); assert("circular-imports"@.len() != "unused-file"@.len()); }
            assert("circular-imports"@ != "unused-export"@) by { reveal_strlit("circular-imports"); reveal_strlit("unused-export"); assert("circular-imports"@.len() != "unused-export"@.len()); }
            assert("circular-imports"@ != "unused-type"@) by { reveal_strlit("circular-imports"); reveal_strlit("unused-type"); assert("circular-imports"@.len() != "unused-type"@.len()); }
            assert("circular-imports"@ != "unused-import"@) by { reveal_strlit("circular-imports"); reveal_strlit("unused-import"); assert("circular-imports"@.len() != "unused-import"@.len()); }
            assert("circular-imports"@ != "unused-enum-member"@) by { reveal_strlit("circular-imports"); reveal_strlit("unused-enum-member"); assert("circular-imports"@.len() != "unused-enum-member"@.len()); }
            assert("circular-imports"@ != "unused-class-member"@) by { reveal_strlit("circular-imports"); reveal_strlit("unused-class-member"); assert("circular-imports"@.len() != "unused-class-member"@.len()); }
            assert("circular-imports"@ != "unused-parameter"@) by { reveal_strlit("circular-imports"); reveal_strlit("unused-parameter"); assert("circular-imports"@[0] != "unused-parameter"@[0]); }
            assert("circular-imports"@ != "expected-unused-but-used"@) by { reveal_strlit("circular-imports"); reveal_strlit("expected-unused-but-used"); assert("circular-imports"@.len() != "expected-unused-but-used"@.len()); }
            assert("circular-imports"@ != "missing-suppression-reason"@) by { reveal_strlit("circular-imports"); reveal_strlit("missing-suppression-reason"); assert("circular-imports"@.len() != "missing-suppression-reason"@.len()); }
            assert("circular-imports"@ != "high-complexity"@) by { reveal_strlit("circular-imports"); reveal_strlit("high-complexity"); assert("circular-imports"@.len() != "high-complexity"@.len()); }
            assert("circular-imports"@ != "large-function"@) by { reveal_strlit("circular-imports"); reveal_strlit("large-function"); assert("circular-imports"@.len() != "large-function"@.len()); }
            assert("circular-imports"@ != "banned-import"@) by { reveal_strlit("circular-imports"); reveal_strlit("banned-import"); assert("circular-imports"@.len() != "banned-import"@.len()); }
            assert("circular-imports"@ != "banned-call"@) by { reveal_strlit("circular-imports"); reveal_strlit("banned-call"); assert("circular-imports"@.len() != "banned-call"@.len()); }
            assert("circular-imports"@ != "banned-effect"@) by { reveal_strlit("circular-imports"); reveal_strlit("banned-effect"); assert("circular-imports"@.len() != "banned-effect"@.len()); }
            assert("circular-imports"@ != "boundary-violation"@) by { reveal_strlit("circular-imports"); reveal_strlit("boundary-violation"); assert("circular-imports"@.len() != "boundary-violation"@.len()); }
            assert("circular-imports"@ != "duplicate-code"@) by { reveal_strlit("circular-imports"); reveal_strlit("duplicate-code"); assert("circular-imports"@.len() != "duplicate-code"@.len()); }
            assert("circular-imports"@ != "unused-css-token"@) by { reveal_strlit("circular-imports"); reveal_strlit("unused-css-token"); assert("circular-imports"@[0] != "unused-css-token"@[0]); }
            assert("circular-imports"@ != "broken-css-reference"@) by { reveal_strlit("circular-imports"); reveal_strlit("broken-css-reference"); assert("circular-imports"@.len() != "broken-css-reference"@.len()); }
            assert("circular-imports"@ != "unused-css-class"@) by { reveal_strlit("circular-imports"); reveal_strlit("unused-css-class"); assert("circular-imports"@[0] != "unused-css-class"@[0]); }
            assert("circular-imports"@ != "unused-dependency"@) by { reveal_strlit("circular-imports"); reveal_strlit("unused-dependency"); assert("circular-imports"@.len() != "unused-dependency"@.len()); }
        },
        RuleId::OnlyUsedInTests => {
            assert("only-used-in-tests"@ != "unused-file"@) by { reveal_strlit("only-used-in-tests"); reveal_strlit("unused-file"); assert("only-used-in-tests"@.len() != "unused-file"@.len()); }
            assert("only-used-in-tests"@ != "unused-export"@) by { reveal_strlit("only-used-in-tests"); reveal_strlit("unused-export"); assert("only-used-in-tests"@.len() != "unused-export"@.len()); }
            assert("only-used-in-tests"@ != "unused-type"@) by { reveal_strlit("only-used-in-tests"); reveal_strlit("unused-type"); assert("only-used-in-tests"@.len() != "unused-type"@.len()); }
            assert("only-used-in-tests"@ != "unused-import"@) by { reveal_strlit("only-used-in-tests"); reveal_strlit("unused-import"); assert("only-used-in-tests"@.len() != "unused-import"@.len()); }
            assert("only-used-in-tests"@ != "unused-enum-member"@) by { reveal_strlit("only-used-in-tests"); reveal_strlit("unused-enum-member"); assert("only-used-in-tests"@[0] != "unused-enum-member"@[0]); }
            assert("only-used-in-tests"@ != "unused-class-member"@) by { reveal_strlit("only-used-in-tests"); reveal_strlit("unused-class-member"); assert("only-used-in-tests"@.len() != "unused-class-member"@.len()); }
            assert("only-used-in-tests"@ != "unused-parameter"@) by { reveal_strlit("only-used-in-tests"); reveal_strlit("unused-parameter"); assert("only-used-in-tests"@.len() != "unused-parameter"@.len()); }
            assert("only-used-in-tests"@ != "expected-unused-but-used"@) by { reveal_strlit("only-used-in-tests"); reveal_strlit("expected-unused-but-used"); assert("only-used-in-tests"@.len() != "expected-unused-but-used"@.len()); }
            assert("only-used-in-tests"@ != "missing-suppression-reason"@) by { reveal_strlit("only-used-in-tests"); reveal_strlit("missing-suppression-reason"); assert("only-used-in-tests"@.len() != "missing-suppression-reason"@.len()); }
            assert("only-used-in-tests"@ != "high-complexity"@) by { reveal_strlit("only-used-in-tests"); reveal_strlit("high-complexity"); assert("only-used-in-tests"@.len() != "high-complexity"@.len()); }
            assert("only-used-in-tests"@ != "large-function"@) by { reveal_strlit("only-used-in-tests"); reveal_strlit("large-function"); assert("only-used-in-tests"@.len() != "large-function"@.len()); }
            assert("only-used-in-tests"@ != "banned-import"@) by { reveal_strlit("only-used-in-tests"); reveal_strlit("banned-import"); assert("only-used-in-tests"@.len() != "banned-import"@.len()); }
            assert("only-used-in-tests"@ != "banned-call"@) by { reveal_strlit("only-used-in-tests"); reveal_strlit("banned-call"); assert("only-used-in-tests"@.len() != "banned-call"@.len()); }
            assert("only-used-in-tests"@ != "banned-effect"@) by { reveal_strlit("only-used-in-tests"); reveal_strlit("banned-effect"); assert("only-used-in-tests"@.len() != "banned-effect"@.len()); }
            assert("only-used-in-tests"@ != "boundary-violation"@) by { reveal_strlit("only-used-in-tests"); reveal_strlit("boundary-violation"); assert("only-used-in-tests"@[0] != "boundary-violation"@[0]); }
            assert("only-used-in-tests"@ != "duplicate-code"@) by { reveal_strlit("only-used-in-tests"); reveal_strlit("duplicate-code"); assert("only-used-in-tests"@.len() != "duplicate-code"@.len()); }
            assert("only-used-in-tests"@ != "unused-css-token"@) by { reveal_strlit("only-used-in-tests"); reveal_strlit("unused-css-token"); assert("only-used-in-tests"@.len() != "unused-css-token"@.len()); }
            assert("only-used-in-tests"@ != "broken-css-reference"@) by { reveal_strlit("only-used-in-tests"); reveal_strlit("broken-css-reference"); assert("only-used-in-tests"@.len() != "broken-css-reference"@.len()); }
            assert("only-used-in-tests"@ != "unused-css-class"@) by { reveal_strlit("only-used-in-tests"); reveal_strlit("unused-css-class"); assert("only-used-in-tests"@.len() != "unused-css-class"@.len()); }
            assert("only-used-in-tests"@ != "unused-dependency"@) by { reveal_strlit("only-used-in-tests"); reveal_strlit("unused-dependency"); assert("only-used-in-tests"@.len() != "unused-dependency"@.len()); }
            assert("only-used-in-tests"@ != "circular-imports"@) by { reveal_strlit("only-used-in-tests"); reveal_strlit("circular-imports"); assert("only-used-in-tests"@.len() != "circular-imports"@.len()); }
        },
    }
}


// ── `init` ───────────────────────────────────────────────────────────────────

/// The fixed part of a generated `noslop.toml`, after the detected roots.
pub const INIT_SETTINGS: &'static str = "\n[rules]\n\
    unused-file = \"warn\"\n\
    unused-export = \"warn\"\n\
    unused-import = \"warn\"\n\
    unused-dependency = \"warn\"\n\
    circular-imports = \"warn\"\n\
    only-used-in-tests = \"warn\"\n\
    \n\
    [ignore]\n\
    paths = [\"**/migrations/**\", \"**/generated/**\", \"**/*.stories.tsx\"]\n\
    \n\
    [entry_points]\n\
    # Add globs for files loaded by convention but not imported (merged with plugins).\n\
    # add = [\"scripts/one-off/*.py\", \"**/cli/**\"]\n\
    \n\
    [plugins]\n\
    # paths = [\".noslop/plugins\"]\n\
    \n\
    [audit]\n\
    baseline = \".noslopcode/baseline.json\"\n\
    fail-on = [\"error\"]\n";

/// The head of a generated `noslop.toml`, before the detected roots.
pub const INIT_HEAD: &'static str = "schema = 1\n\n# Detected scan roots (auto-detection — edit to refine):\n";

/// How many of the files belong to the package with id `id`.
pub open spec fn files_in(files: Seq<DiscoveredFile>, id: Seq<char>) -> nat
    decreases files.len(),
{
    if files.len() == 0 {
        0
    } else {
        files_in(files.drop_last(), id) + if files.last().package@ == id { 1nat } else { 0nat }
    }
}

/// Names separated by `", "`.
pub open spec fn comma_joined(v: Seq<Seq<char>>) -> Seq<char>
    decreases v.len(),
{
    if v.len() == 0 {
        Seq::empty()
    } else if v.len() == 1 {
        v[0]
    } else {
        comma_joined(v.drop_last()) + ", "@ + v.last()
    }
}

/// The comment line describing one detected package with `n` files.
pub open spec fn root_line(p: Package, n: nat) -> Seq<char> {
    "#   "@ + (if p.root@.len() == 0 { "."@ } else { p.root@ }) + " ("@ + decimal(n) + " files) — plugins: "@
        + (if p.plugins@.len() == 0 { "fallback heuristics"@ } else { comma_joined(string_views(p.plugins@)) })
        + "\n"@
}

/// The comment lines of the first `k` packages that hold files.
pub open spec fn root_lines(ws: Workspace, k: int) -> Seq<char>
    decreases k,
{
    if k <= 0 {
        Seq::empty()
    } else {
        let p = ws.packages@[k - 1];
        let n = files_in(ws.files@, p.id@);
        root_lines(ws, k - 1) + if n == 0 { Seq::empty() } else { root_line(p, n) }
    }
}

/// The `noslop.toml` that `init` writes for a discovered workspace: the
/// detected packages that hold files, with their plugins, then the settings.
pub open spec fn init_text(ws: Workspace) -> Seq<char> {
    INIT_HEAD@ + root_lines(ws, ws.packages@.len() as int) + INIT_SETTINGS@
}

fn count_files(files: &Vec<DiscoveredFile>, id: &str) -> (r: usize)
    ensures
        r == files_in(files@, id@),
{
    let mut n: usize = 0;
    let mut i: usize = 0;
    while i < files.len()
        invariant
            i <= files@.len(),
            n == files_in(files@.take(i as int), id@),
            n <= i,
        decreases files@.len() - i,
    {
        assert(files@.take(i + 1).drop_last() =~= files@.take(i as int));
        if str_is(files[i].package.as_str(), id) {
            n += 1;
        }
        i += 1;
    }
    assert(files@.take(files@.len() as int) =~= files@);
    n
}

/// The text of a generated `noslop.toml` (see `init_text`).
pub fn init_toml(ws: &Workspace) -> (r: String)
    ensures
        r@ == init_text(*ws),
{
    let mut out: Vec<char> = Vec::new();
    push_str(&mut out, INIT_HEAD);
    let mut k: usize = 0;
    while k < ws.packages.len()
        invariant
            k <= ws.packages@.len(),
            out@ == INIT_HEAD@ + root_lines(*ws, k as int),
        decreases ws.packages@.len() - k,
    {
        let p = &ws.packages[k];
        let n = count_files(&ws.files, p.id.as_str());
        let ghost before = out@;
        if n > 0 {
            push_str(&mut out, "#   ");
            if p.root.unicode_len() == 0 {
                push_str(&mut out, ".");
            } else {
                push_str(&mut out, p.root.as_str());
            }
            push_str(&mut out, " (");
            push_str(&mut out, u64_to_string(n as u64).as_str());
            push_str(&mut out, " files) — plugins: ");
            if p.plugins.len() == 0 {
                push_str(&mut out, "fallback heuristics");
            } else {
                let ghost base = out@;
                let mut j: usize = 0;
                while j < p.plugins.len()
                    invariant
                        j <= p.plugins@.len(),
                        out@ == base + comma_joined(string_views(p.plugins@).take(j as int)),
                    decreases p.plugins@.len() - j,
                {
                    proof {
                        let t = string_views(p.plugins@).take(j + 1);
                        assert(t.drop_last() =~= string_views(p.plugins@).take(j as int));
                        if j == 0 {
                            assert(t[0] == p.plugins@[0]@);
                        }
                    }
                    if j > 0 {
                        push_str(&mut out, ", ");
                    }
                    push_str(&mut out, p.plugins[j].as_str());
                    proof {
                        if j == 0 {
                            assert(out@ =~= base + comma_joined(string_views(p.plugins@).take(1)));
                        } else {
                            assert(out@ =~= base + comma_joined(string_views(p.plugins@).take(j + 1)));
                        }
                    }
                    j += 1;
                }
                assert(string_views(p.plugins@).take(p.plugins@.len() as int) =~= string_views(p.plugins@));
            }
            push_str(&mut out, "\n");
            assert(out@ =~= before + root_line(*p, n as nat));
        }
        assert(out@ =~= INIT_HEAD@ + root_lines(*ws, k + 1));
        k += 1;
    }
    push_str(&mut out, INIT_SETTINGS);
    string_from(out.as_slice())
}

} // verus!
