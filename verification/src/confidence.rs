//! Confidence computation — every dampener can only lower confidence.

use vstd::prelude::*;
use crate::finding::Confidence;
use crate::ids::FileId;
use crate::ir::Graph;
use crate::text::has_str;

verus! {

/// Confidence for a dead-code finding on a file: `Medium` when the package
/// holds unresolvable dynamism or the name appears in a string literal.
pub open spec fn dead_conf(g: Graph, file_id: int, name: Option<Seq<char>>) -> Confidence {
    if has_str(g.dynamic_packages@, g.files@[file_id].package@) {
        Confidence::Medium
    } else if name matches Some(n) && has_str(g.string_literals@, n) {
        Confidence::Medium
    } else {
        Confidence::High
    }
}

/// Confidence for a dead-code finding on `file_id` (`name` is the symbol name,
/// or the file stem for file-level findings).
pub fn dead_confidence(graph: &Graph, file_id: FileId, name: Option<&str>) -> (r: Confidence)
    requires
        file_id < graph.files@.len(),
    ensures
        r == dead_conf(*graph, file_id as int, match name { Some(n) => Some(n@), None => None }),
{
    let package = graph.file(file_id).package.as_str();
    if graph.package_is_dynamic(package) {
        return Confidence::Medium;
    }
    if let Some(name) = name {
        if crate::text::contains_str(&graph.string_literals, name) {
            return Confidence::Medium;
        }
    }
    Confidence::High
}

} // verus!
