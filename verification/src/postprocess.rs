//! Post-processing of a scan's findings: configured severities, ignored
//! paths and inline suppressions, and the findings for suppressions that lack
//! a reason when the configuration asks for one.

use vstd::prelude::*;
use vstd::string::*;
use crate::config::{config_view, sev_lookup, Config};
use crate::discover::globs::glob_set_matches;
use crate::facts::{Annotation, FileFacts, Suppression, Visibility};
use crate::finding::{flat, lemma_views_push, rule_name, views, Confidence, Finding, FindingView, RuleId, Severity};
use crate::ids::Span;
use crate::order::string_views;
use crate::text::{cat3, copy_string, owned, str_is};

verus! {

/// Index of the last facts record for `path` that has suppressions, or -1.
pub open spec fn supp_slot(facts: Seq<FileFacts>, path: Seq<char>, n: int) -> int
    decreases n,
{
    if n <= 0 {
        -1
    } else if facts[n - 1].path@ == path && facts[n - 1].suppressions@.len() > 0 {
        n - 1
    } else {
        supp_slot(facts, path, n - 1)
    }
}

/// A suppression covers the finding: same rule, and file-wide or on a line
/// of its span.
pub open spec fn covers(s: Suppression, f: Finding) -> bool {
    s.rule@ == rule_name(f.rule) && (s.file_scoped || (s.line >= f.span.start_line && s.line <= f.span.end_line))
}

/// Some suppression of the finding's file covers it.
pub open spec fn suppressed(f: Finding, facts: Seq<FileFacts>) -> bool {
    let k = supp_slot(facts, f.file@, facts.len() as int);
    k >= 0 && exists|i: int| 0 <= i < facts[k].suppressions@.len() && covers(#[trigger] facts[k].suppressions@[i], f)
}

proof fn lemma_supp_slot(facts: Seq<FileFacts>, path: Seq<char>, n: int)
    requires
        0 <= n <= facts.len(),
    ensures
        -1 <= supp_slot(facts, path, n) < n,
    decreases n,
{
    if n > 0 {
        lemma_supp_slot(facts, path, n - 1);
    }
}

/// Is the finding suppressed by an inline `noslop-ignore` comment?
pub fn is_suppressed(finding: &Finding, facts: &[FileFacts]) -> (r: bool)
    ensures
        r == suppressed(*finding, facts@),
{
    proof { lemma_supp_slot(facts@, finding.file@, facts@.len() as int); }
    let mut n = facts.len();
    while n > 0
        invariant
            n <= facts@.len(),
            supp_slot(facts@, finding.file@, facts@.len() as int) == supp_slot(facts@, finding.file@, n as int),
        decreases n,
    {
        let f = &facts[n - 1];
        if str_is(f.path.as_str(), finding.file.as_str()) && f.suppressions.len() > 0 {
            let rule = finding.rule.as_str();
            let mut i: usize = 0;
            while i < f.suppressions.len()
                invariant
                    i <= f.suppressions@.len(),
                    0 < n <= facts@.len(),
                    *f == facts@[n - 1],
                    supp_slot(facts@, finding.file@, facts@.len() as int) == n - 1,
                    rule@ == rule_name(finding.rule),
                    forall|j: int| 0 <= j < i ==> !covers(#[trigger] f.suppressions@[j], *finding),
                decreases f.suppressions@.len() - i,
            {
                let s = &f.suppressions[i];
                if str_is(s.rule.as_str(), rule)
                    && (s.file_scoped || (s.line >= finding.span.start_line && s.line <= finding.span.end_line)) {
                    assert(covers(f.suppressions@[i as int], *finding));
                    return true;
                }
                i += 1;
            }
            return false;
        }
        n -= 1;
    }
    false
}

pub open spec fn line_at_least_one(line: u32) -> u32 {
    if line < 1 { 1 } else { line }
}

/// The finding for one reasonless suppression comment (`true`) or
/// `@expected-unused` tag (`false`) on `line`.
pub open spec fn reason_finding(path: Seq<char>, sev: Severity, line: u32, comment: bool) -> FindingView {
    FindingView {
        rule: RuleId::MissingSuppressionReason,
        severity: sev,
        confidence: Confidence::High,
        symbol: None,
        file: path,
        span: Span { start_line: line_at_least_one(line), end_line: line_at_least_one(line) },
        message: "This "@ + (if comment { "suppression comment"@ } else { "@expected-unused tag"@ }) + " is missing a `-- <reason>`."@,
        reason: "require-suppression-reason is enabled"@,
    }
}

/// One finding per suppression without a reason, in order.
pub open spec fn supp_findings(path: Seq<char>, sev: Severity, s: Seq<Suppression>) -> Seq<FindingView>
    decreases s.len(),
{
    if s.len() == 0 {
        Seq::empty()
    } else {
        supp_findings(path, sev, s.drop_last())
            + if s.last().reason is None { seq![reason_finding(path, sev, s.last().line, true)] } else { Seq::empty() }
    }
}

/// One finding per `@expected-unused` tag without a reason, in order.
pub open spec fn tag_findings(path: Seq<char>, sev: Severity, a: Seq<Annotation>) -> Seq<FindingView>
    decreases a.len(),
{
    if a.len() == 0 {
        Seq::empty()
    } else {
        tag_findings(path, sev, a.drop_last())
            + if a.last().visibility == Visibility::ExpectedUnused && a.last().reason is None {
                seq![reason_finding(path, sev, a.last().line, false)]
            } else {
                Seq::empty()
            }
    }
}

pub open spec fn file_reason_findings(f: FileFacts, sev: Severity) -> Seq<FindingView> {
    supp_findings(f.path@, sev, f.suppressions@) + tag_findings(f.path@, sev, f.annotations@)
}

pub open spec fn reason_findings_of(facts: Seq<FileFacts>, sev: Severity) -> Seq<FindingView> {
    flat(facts.len() as int, |i: int| file_reason_findings(facts[i], sev))
}

fn reason_finding_of(path: &String, sev: Severity, line: u32, comment: bool) -> (r: Finding)
    ensures
        r@ == reason_finding(path@, sev, line, comment),
{
    let l = if line < 1 { 1 } else { line };
    Finding {
        rule: RuleId::MissingSuppressionReason,
        severity: sev,
        confidence: Confidence::High,
        symbol: None,
        file: copy_string(path),
        span: Span::new(l, l),
        message: cat3("This ", if comment { "suppression comment" } else { "@expected-unused tag" }, " is missing a `-- <reason>`."),
        reason: owned("require-suppression-reason is enabled"),
    }
}

/// One `missing-suppression-reason` finding, at severity `sev`, per
/// suppression comment or `@expected-unused` tag without a `-- reason`.
pub fn missing_reason_findings(facts: &[FileFacts], sev: Severity) -> (r: Vec<Finding>)
    ensures
        views(r@) == reason_findings_of(facts@, sev),
{
    let ghost ff = |i: int| file_reason_findings(facts@[i], sev);
    let mut out: Vec<Finding> = Vec::new();
    let mut i: usize = 0;
    while i < facts.len()
        invariant
            i <= facts@.len(),
            ff == (|i: int| file_reason_findings(facts@[i], sev)),
            views(out@) == flat(i as int, ff),
        decreases facts@.len() - i,
    {
        let f = &facts[i];
        let ghost start = views(out@);
        let mut k: usize = 0;
        while k < f.suppressions.len()
            invariant
                k <= f.suppressions@.len(),
                views(out@) == start + supp_findings(f.path@, sev, f.suppressions@.take(k as int)),
            decreases f.suppressions@.len() - k,
        {
            proof { assert(f.suppressions@.take(k as int + 1).drop_last() =~= f.suppressions@.take(k as int)); }
            let s = &f.suppressions[k];
            if s.reason.is_none() {
                let fd = reason_finding_of(&f.path, sev, s.line, true);
                proof { lemma_views_push(out@, fd); }
                out.push(fd);
            }
            k += 1;
        }
        assert(f.suppressions@.take(f.suppressions@.len() as int) =~= f.suppressions@);
        let ghost mid = views(out@);
        let mut k: usize = 0;
        while k < f.annotations.len()
            invariant
                k <= f.annotations@.len(),
                views(out@) == mid + tag_findings(f.path@, sev, f.annotations@.take(k as int)),
            decreases f.annotations@.len() - k,
        {
            proof { assert(f.annotations@.take(k as int + 1).drop_last() =~= f.annotations@.take(k as int)); }
            let a = &f.annotations[k];
            if a.visibility == Visibility::ExpectedUnused && a.reason.is_none() {
                let fd = reason_finding_of(&f.path, sev, a.line, false);
                proof { lemma_views_push(out@, fd); }
                out.push(fd);
            }
            k += 1;
        }
        assert(f.annotations@.take(f.annotations@.len() as int) =~= f.annotations@);
        assert(views(out@) == flat(i as int + 1, ff));
        i += 1;
    }
    out
}

/// The finding's severity once the configured override is applied.
pub open spec fn adjusted(f: Finding, c: Config) -> Severity {
    match sev_lookup(config_view(c).rule_severity, rule_name(f.rule)) {
        Some(s) => s,
        None => f.severity,
    }
}

/// The findings that survive post-processing, with their adjusted severity,
/// and how many were suppressed: a finding turned `off` or in an ignored path
/// is dropped; one covered by a suppression is dropped and counted.
pub open spec fn survivors(raw: Seq<Finding>, facts: Seq<FileFacts>, c: Config) -> (Seq<FindingView>, nat)
    decreases raw.len(),
{
    if raw.len() == 0 {
        (Seq::empty(), 0)
    } else {
        let (kept, n) = survivors(raw.drop_last(), facts, c);
        let f = raw.last();
        let sev = adjusted(f, c);
        if sev == Severity::Off || glob_set_matches(string_views(c.ignore@), f.file@) {
            (kept, n)
        } else if suppressed(f, facts) {
            (kept, n + 1)
        } else {
            (kept.push(FindingView { severity: sev, ..f@ }), n)
        }
    }
}

/// What `postprocess` returns: the survivors, then the findings for
/// reasonless suppressions when the configuration asks for reasons; and the
/// suppressed count.
pub open spec fn postprocessed(raw: Seq<Finding>, facts: Seq<FileFacts>, c: Config) -> (Seq<FindingView>, nat) {
    let (kept, n) = survivors(raw, facts, c);
    let extra = match sev_lookup(config_view(c).rule_severity, "require-suppression-reason"@) {
        Some(s) => if s == Severity::Off { Seq::empty() } else { reason_findings_of(facts, s) },
        None => Seq::empty(),
    };
    (kept + extra, n)
}

/// Applies the configured severities, ignore paths and inline suppressions to
/// the raw findings; returns the surviving findings and the suppressed count.
pub fn postprocess(raw: Vec<Finding>, facts: &[FileFacts], config: &Config) -> (r: (Vec<Finding>, usize))
    ensures
        views(r.0@) == postprocessed(raw@, facts@, *config).0,
        r.1 == postprocessed(raw@, facts@, *config).1,
{
    let mut out: Vec<Finding> = Vec::new();
    let mut suppressed_count: usize = 0;
    let mut i: usize = 0;
    while i < raw.len()
        invariant
            i <= raw@.len(),
            suppressed_count <= i,
            views(out@) == survivors(raw@.take(i as int), facts@, *config).0,
            suppressed_count == survivors(raw@.take(i as int), facts@, *config).1,
        decreases raw@.len() - i,
    {
        proof {
            assert(raw@.take(i as int + 1).drop_last() =~= raw@.take(i as int));
            assert(raw@.take(i as int + 1).last() == raw@[i as int]);
        }
        let f = &raw[i];
        let sev = config.severity_for(f.rule, f.severity);
        let off = match sev {
            Severity::Off => true,
            _ => false,
        };
        if off || config.is_ignored(f.file.as_str()) {
        } else if is_suppressed(f, facts) {
            suppressed_count += 1;
        } else {
            let mut g = f.duplicate();
            g.severity = sev;
            assert(g@ == FindingView { severity: sev, ..f@ });
            proof { lemma_views_push(out@, g); }
            out.push(g);
        }
        i += 1;
    }
    assert(raw@.take(raw@.len() as int) =~= raw@);
    match config.require_suppression_reason() {
        Some(sev) => {
            let extra = missing_reason_findings(facts, sev);
            proof { crate::finding::lemma_views_append(out@, extra@); }
            let mut extra = extra;
            out.append(&mut extra);
        },
        None => {
            assert(views(out@) + Seq::<FindingView>::empty() =~= views(out@));
        },
    }
    (out, suppressed_count)
}


/// Post-processing keeps or suppresses each given finding at most once, and
/// every finding it keeps is a given one that is not turned off, not under
/// an ignored path and not suppressed, carrying its configured severity.
pub proof fn law_survivors_are_unsuppressed(raw: Seq<Finding>, facts: Seq<FileFacts>, c: Config)
    ensures
        survivors(raw, facts, c).0.len() + survivors(raw, facts, c).1 <= raw.len(),
        forall|k: int| 0 <= k < survivors(raw, facts, c).0.len() ==> exists|i: int|
            0 <= i < raw.len() && !suppressed(raw[i], facts) && adjusted(raw[i], c) != Severity::Off
                && !glob_set_matches(string_views(c.ignore@), raw[i].file@)
                && #[trigger] survivors(raw, facts, c).0[k] == (FindingView { severity: adjusted(raw[i], c), ..raw[i]@ }),
    decreases raw.len(),
{
    if raw.len() > 0 {
        let p = raw.drop_last();
        law_survivors_are_unsuppressed(p, facts, c);
        let (kept, n) = survivors(p, facts, c);
        assert forall|k: int| 0 <= k < survivors(raw, facts, c).0.len() implies exists|i: int|
            0 <= i < raw.len() && !suppressed(raw[i], facts) && adjusted(raw[i], c) != Severity::Off
                && !glob_set_matches(string_views(c.ignore@), raw[i].file@)
                && #[trigger] survivors(raw, facts, c).0[k] == (FindingView { severity: adjusted(raw[i], c), ..raw[i]@ }) by {
            if k < kept.len() {
                assert(survivors(raw, facts, c).0[k] == kept[k]);
                let i = choose|i: int|
                    0 <= i < p.len() && !suppressed(p[i], facts) && adjusted(p[i], c) != Severity::Off
                        && !glob_set_matches(string_views(c.ignore@), p[i].file@)
                        && #[trigger] kept[k] == (FindingView { severity: adjusted(p[i], c), ..p[i]@ });
                assert(raw[i] == p[i]);
            } else {
                assert(raw[raw.len() - 1] == raw.last());
            }
        }
    }
}

} // verus!
