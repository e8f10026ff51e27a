//! Glob matching, which `globset` does.

use vstd::prelude::*;
use crate::order::string_views;

verus! {

/// Does `path` match one of `patterns` as `globset` compiles and matches
/// them (a pattern that does not compile is left out)? This is the answer on
/// Unix, where `globset` matches a path as given. Off Unix it first turns each
/// `\` in a path into `/`, so there a path that holds `\` may be answered
/// otherwise; the paths this library builds use `/` throughout.
pub uninterp spec fn glob_set_matches(patterns: Seq<Seq<char>>, path: Seq<char>) -> bool;

/// Compiles `patterns` into one set and tests each of `paths` against it
/// (`Glob::new`, `GlobSetBuilder::add`/`build`, `GlobSet::is_match`). A
/// pattern that fails to compile is skipped, and a set that fails to build
/// matches nothing, which the name `glob_set_matches` stands for. The answer
/// for a path depends on the patterns and the path alone.
#[verifier::external_body]
pub(crate) fn match_globs(patterns: &Vec<String>, paths: &Vec<String>) -> (r: Vec<bool>)
    ensures
        r@.len() == paths@.len(),
        forall|i: int| 0 <= i < paths@.len() ==> r@[i] == glob_set_matches(string_views(patterns@), #[trigger] paths@[i]@),
{
    let mut builder = globset::GlobSetBuilder::new();
    for pat in patterns {
        if let Ok(glob) = globset::Glob::new(pat) {
            builder.add(glob);
        }
    }
    let set = builder.build().unwrap_or_else(|_| globset::GlobSet::empty());
    paths.iter().map(|p| set.is_match(p.as_str())).collect()
}

} // verus!
