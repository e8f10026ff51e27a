//! Pass-facing analysis configuration — plain data the analyze stage reads.

use vstd::prelude::*;
use crate::finding::Severity;
use crate::text::str_is;

verus! {

/// Styling-analysis toggle (off by default).
#[derive(Debug, Clone, Copy)]
pub struct StyleConfig {
    pub enabled: bool,
}

/// Duplication-detection settings.
#[derive(Debug, Clone, Copy)]
pub struct DuplicationConfig {
    pub enabled: bool,
    pub mode: DuplicationMode,
    /// Minimum matched token run to report.
    pub min_tokens: u32,
    /// Report only clones that span more than one directory.
    pub skip_local: bool,
}

/// The defaults: disabled, `mild`, 30 tokens, local clones reported.
pub open spec fn default_duplication() -> DuplicationConfig {
    DuplicationConfig { enabled: false, mode: DuplicationMode::Mild, min_tokens: 30, skip_local: false }
}

impl DuplicationConfig {
    /// The defaults: disabled, `mild`, 30 tokens, local clones reported.
    pub fn defaults() -> (r: DuplicationConfig)
        ensures
            r == default_duplication(),
    {
        DuplicationConfig { enabled: false, mode: DuplicationMode::Mild, min_tokens: 30, skip_local: false }
    }
}

/// Normalization ladder, weakest (most permissive) last.
#[derive(Debug, Clone, Copy, PartialEq, Eq, Structural)]
pub enum DuplicationMode {
    /// Exact token text.
    Exact,
    /// Ignore differing numeric literals.
    Mild,
    /// Also ignore differing string literals.
    Weak,
    /// Also ignore renamed identifiers (verified for consistent renaming).
    Semantic,
}

pub open spec fn mode_named(s: Seq<char>) -> Option<DuplicationMode> {
    if s == "exact"@ {
        Some(DuplicationMode::Exact)
    } else if s == "mild"@ {
        Some(DuplicationMode::Mild)
    } else if s == "weak"@ {
        Some(DuplicationMode::Weak)
    } else if s == "semantic"@ {
        Some(DuplicationMode::Semantic)
    } else {
        None
    }
}

pub open spec fn mode_name(m: DuplicationMode) -> Seq<char> {
    match m {
        DuplicationMode::Exact => "exact"@,
        DuplicationMode::Mild => "mild"@,
        DuplicationMode::Weak => "weak"@,
        DuplicationMode::Semantic => "semantic"@,
    }
}

impl DuplicationMode {
    pub fn from_name(s: &str) -> (r: Option<DuplicationMode>)
        ensures
            r == mode_named(s@),
    {
        if str_is(s, "exact") {
            Some(DuplicationMode::Exact)
        } else if str_is(s, "mild") {
            Some(DuplicationMode::Mild)
        } else if str_is(s, "weak") {
            Some(DuplicationMode::Weak)
        } else if str_is(s, "semantic") {
            Some(DuplicationMode::Semantic)
        } else {
            None
        }
    }

    pub fn as_str(self) -> (r: &'static str)
        ensures
            r@ == mode_name(self),
    {
        match self {
            DuplicationMode::Exact => "exact",
            DuplicationMode::Mild => "mild",
            DuplicationMode::Weak => "weak",
            DuplicationMode::Semantic => "semantic",
        }
    }
}

/// Declarative policy: banned imports/calls/effects and layers.
#[derive(Debug)]
pub struct PolicyConfig {
    pub rules: Vec<PolicyRule>,
    pub layers: Vec<Layer>,
}

impl PolicyConfig {
    pub fn is_empty(&self) -> (r: bool)
        ensures
            r == (self.rules@.len() == 0 && self.layers@.len() == 0),
    {
        self.rules.len() == 0 && self.layers.len() == 0
    }
}

/// A single banned-import / banned-call / banned-effect rule.
#[derive(Debug)]
pub struct PolicyRule {
    pub id: String,
    pub kind: PolicyKind,
    /// Glob patterns (import/call) or effect names (`banned-effect`).
    pub patterns: Vec<String>,
    /// Optional path scope; empty = the whole repo.
    pub paths: Vec<String>,
    pub severity: Severity,
    pub hint: Option<String>,
}

#[derive(Debug, Clone, Copy, PartialEq, Eq, Structural)]
pub enum PolicyKind {
    BannedImport,
    BannedCall,
    BannedEffect,
}

/// An architectural layer: files under `paths` may import only their own
/// layer plus the layers named in `allow`.
#[derive(Debug)]
pub struct Layer {
    pub name: String,
    pub paths: Vec<String>,
    pub allow: Vec<String>,
}

} // verus!
