//! Findings — what analysis passes emit and the report stage renders.

use vstd::prelude::*;
use vstd::string::*;
use crate::ids::Span;
use crate::text::{cat3, str_is};

verus! {

/// Stable rule identifier; its kebab-case name is part of the output contract.
#[derive(Debug, Clone, Copy, PartialEq, Eq, Structural, Hash)]
pub enum RuleId {
    UnusedFile,
    UnusedExport,
    UnusedType,
    UnusedImport,
    UnusedDependency,
    UnusedEnumMember,
    UnusedClassMember,
    UnusedParameter,
    ExpectedUnusedButUsed,
    MissingSuppressionReason,
    HighComplexity,
    LargeFunction,
    BannedImport,
    BannedCall,
    BannedEffect,
    BoundaryViolation,
    DuplicateCode,
    UnusedCssToken,
    BrokenCssReference,
    UnusedCssClass,
    CircularImports,
    OnlyUsedInTests,
}

/// The canonical kebab-case name of a rule.
pub open spec fn rule_name(r: RuleId) -> Seq<char> {
    match r {
        RuleId::UnusedFile => "unused-file"@,
        RuleId::UnusedExport => "unused-export"@,
        RuleId::UnusedType => "unused-type"@,
        RuleId::UnusedImport => "unused-import"@,
        RuleId::UnusedDependency => "unused-dependency"@,
        RuleId::UnusedEnumMember => "unused-enum-member"@,
        RuleId::UnusedClassMember => "unused-class-member"@,
        RuleId::UnusedParameter => "unused-parameter"@,
        RuleId::ExpectedUnusedButUsed => "expected-unused-but-used"@,
        RuleId::MissingSuppressionReason => "missing-suppression-reason"@,
        RuleId::HighComplexity => "high-complexity"@,
        RuleId::LargeFunction => "large-function"@,
        RuleId::BannedImport => "banned-import"@,
        RuleId::BannedCall => "banned-call"@,
        RuleId::BannedEffect => "banned-effect"@,
        RuleId::BoundaryViolation => "boundary-violation"@,
        RuleId::DuplicateCode => "duplicate-code"@,
        RuleId::UnusedCssToken => "unused-css-token"@,
        RuleId::BrokenCssReference => "broken-css-reference"@,
        RuleId::UnusedCssClass => "unused-css-class"@,
        RuleId::CircularImports => "circular-imports"@,
        RuleId::OnlyUsedInTests => "only-used-in-tests"@,
    }
}

impl RuleId {
    /// The canonical kebab-case name, matching the JSON encoding and config keys.
    pub fn as_str(self) -> (r: &'static str)
        ensures
            r@ == rule_name(self),
    {
        match self {
            RuleId::UnusedFile => "unused-file",
            RuleId::UnusedExport => "unused-export",
            RuleId::UnusedType => "unused-type",
            RuleId::UnusedImport => "unused-import",
            RuleId::UnusedDependency => "unused-dependency",
            RuleId::UnusedEnumMember => "unused-enum-member",
            RuleId::UnusedClassMember => "unused-class-member",
            RuleId::UnusedParameter => "unused-parameter",
            RuleId::ExpectedUnusedButUsed => "expected-unused-but-used",
            RuleId::MissingSuppressionReason => "missing-suppression-reason",
            RuleId::HighComplexity => "high-complexity",
            RuleId::LargeFunction => "large-function",
            RuleId::BannedImport => "banned-import",
            RuleId::BannedCall => "banned-call",
            RuleId::BannedEffect => "banned-effect",
            RuleId::BoundaryViolation => "boundary-violation",
            RuleId::DuplicateCode => "duplicate-code",
            RuleId::UnusedCssToken => "unused-css-token",
            RuleId::BrokenCssReference => "broken-css-reference",
            RuleId::UnusedCssClass => "unused-css-class",
            RuleId::CircularImports => "circular-imports",
            RuleId::OnlyUsedInTests => "only-used-in-tests",
        }
    }
}

/// Configurable severity; `Off` disables a rule entirely.
#[derive(Debug, Clone, Copy, PartialEq, Eq, Structural, PartialOrd, Ord)]
pub enum Severity {
    Off,
    Warn,
    Error,
}

pub open spec fn severity_named(s: Seq<char>) -> Option<Severity> {
    if s == "off"@ {
        Some(Severity::Off)
    } else if s == "warn"@ {
        Some(Severity::Warn)
    } else if s == "error"@ {
        Some(Severity::Error)
    } else {
        None
    }
}

impl Severity {
    /// Parse a config severity keyword (`off`/`warn`/`error`).
    pub fn from_name(s: &str) -> (r: Option<Severity>)
        ensures
            r == severity_named(s@),
    {
        if str_is(s, "off") {
            Some(Severity::Off)
        } else if str_is(s, "warn") {
            Some(Severity::Warn)
        } else if str_is(s, "error") {
            Some(Severity::Error)
        } else {
            None
        }
    }
}

/// Computed trust tier for a finding, ordered `Low < Medium < High`.
#[derive(Debug, Clone, Copy, PartialEq, Eq, Structural, PartialOrd, Ord)]
pub enum Confidence {
    Low,
    Medium,
    High,
}

pub open spec fn confidence_rank(c: Confidence) -> int {
    match c {
        Confidence::Low => 0,
        Confidence::Medium => 1,
        Confidence::High => 2,
    }
}

impl Confidence {
    /// Position in the ordering `Low < Medium < High`.
    pub fn rank(self) -> (r: u8)
        ensures
            r == confidence_rank(self),
    {
        match self {
            Confidence::Low => 0,
            Confidence::Medium => 1,
            Confidence::High => 2,
        }
    }

    /// The lower of two confidences.
    pub fn lower_of(self, other: Confidence) -> (r: Confidence)
        ensures
            r == (if confidence_rank(self) <= confidence_rank(other) { self } else { other }),
    {
        if self.rank() <= other.rank() { self } else { other }
    }
}

/// One reported problem.
#[derive(Debug)]
pub struct Finding {
    pub rule: RuleId,
    pub severity: Severity,
    pub confidence: Confidence,
    /// Stable symbol id, when the finding is about a symbol rather than a file.
    pub symbol: Option<String>,
    pub file: String,
    pub span: Span,
    /// Human-readable sentence.
    pub message: String,
    /// Machine-checkable justification.
    pub reason: String,
}

/// The baseline key of a finding: `rule|symbol`, else `rule|file`.
pub open spec fn finding_key(f: Finding) -> Seq<char> {
    match f.symbol {
        Some(sym) => rule_name(f.rule) + "|"@ + sym@,
        None => rule_name(f.rule) + "|"@ + f.file@,
    }
}

impl Finding {
    /// The stable id used for baselines and deduplication.
    pub fn stable_key(&self) -> (r: String)
        ensures
            r@ == finding_key(*self),
    {
        match &self.symbol {
            Some(sym) => cat3(self.rule.as_str(), "|", sym.as_str()),
            None => cat3(self.rule.as_str(), "|", self.file.as_str()),
        }
    }

    /// A field-for-field copy of this finding.
    pub fn duplicate(&self) -> (r: Finding)
        ensures
            r.rule == self.rule,
            r.severity == self.severity,
            r.confidence == self.confidence,
            r.symbol matches Some(s) ==> self.symbol matches Some(t) && s@ == t@,
            r.symbol is None <==> self.symbol is None,
            r.file@ == self.file@,
            r.span == self.span,
            r.message@ == self.message@,
            r.reason@ == self.reason@,
    {
        Finding {
            rule: self.rule,
            severity: self.severity,
            confidence: self.confidence,
            symbol: match &self.symbol {
                Some(s) => Some(s.clone()),
                None => None,
            },
            file: self.file.clone(),
            span: self.span,
            message: self.message.clone(),
            reason: self.reason.clone(),
        }
    }
}

/// The abstract content of a finding: its strings as character sequences.
pub struct FindingView {
    pub rule: RuleId,
    pub severity: Severity,
    pub confidence: Confidence,
    pub symbol: Option<Seq<char>>,
    pub file: Seq<char>,
    pub span: Span,
    pub message: Seq<char>,
    pub reason: Seq<char>,
}

impl View for Finding {
    type V = FindingView;

    open spec fn view(&self) -> FindingView {
        FindingView {
            rule: self.rule,
            severity: self.severity,
            confidence: self.confidence,
            symbol: match self.symbol {
                Some(s) => Some(s@),
                None => None,
            },
            file: self.file@,
            span: self.span,
            message: self.message@,
            reason: self.reason@,
        }
    }
}

/// The views of a list of findings.
pub open spec fn views(v: Seq<Finding>) -> Seq<FindingView> {
    v.map_values(|f: Finding| f@)
}

/// The findings each of the first `n` items contributes, in order.
pub open spec fn flat(n: int, f: spec_fn(int) -> Seq<FindingView>) -> Seq<FindingView>
    decreases n,
{
    if n <= 0 {
        Seq::empty()
    } else {
        flat(n - 1, f) + f(n - 1)
    }
}

/// At most one finding: `Some(x)` as a one-element list.
pub open spec fn opt(x: Option<FindingView>) -> Seq<FindingView> {
    match x {
        Some(v) => seq![v],
        None => Seq::empty(),
    }
}

/// Every finding of `flat(n, f)` is one that some item below `n` contributes.
pub proof fn lemma_flat_from(n: int, f: spec_fn(int) -> Seq<FindingView>, k: int) -> (ij: (int, int))
    requires
        0 <= k < flat(n, f).len(),
    ensures
        0 <= ij.0 < n,
        0 <= ij.1 < f(ij.0).len(),
        flat(n, f)[k] == f(ij.0)[ij.1],
    decreases n,
{
    let before = flat(n - 1, f);
    if k < before.len() {
        lemma_flat_from(n - 1, f, k)
    } else {
        (n - 1, k - before.len())
    }
}

/// Every finding that an item below `n` contributes is in `flat(n, f)`.
pub proof fn lemma_flat_has(n: int, f: spec_fn(int) -> Seq<FindingView>, i: int, j: int) -> (k: int)
    requires
        0 <= i < n,
        0 <= j < f(i).len(),
    ensures
        0 <= k < flat(n, f).len(),
        flat(n, f)[k] == f(i)[j],
    decreases n,
{
    let before = flat(n - 1, f);
    if i < n - 1 {
        lemma_flat_has(n - 1, f, i, j)
    } else {
        before.len() + j
    }
}

pub proof fn lemma_views_push(v: Seq<Finding>, x: Finding)
    ensures
        views(v.push(x)) == views(v).push(x@),
{
    assert(views(v.push(x)) =~= views(v).push(x@));
}

pub proof fn lemma_views_append(v: Seq<Finding>, w: Seq<Finding>)
    ensures
        views(v + w) == views(v) + views(w),
{
    assert(views(v + w) =~= views(v) + views(w));
}

} // verus!
