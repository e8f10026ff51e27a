//! All analysis passes over one resolved repository, in their fixed order:
//! unused files, exports, symbols and imports, cycles, unused dependencies,
//! complexity, policy and styling. Severity overrides, suppressions and the
//! final order are applied later.

use vstd::prelude::*;
use crate::analysis::{PolicyConfig, StyleConfig};
use crate::cycles::{cycle_groups, group_finding};
use crate::dead_files::dead_files_out;
use crate::deps::deps_out;
use crate::exports::exports_out;
use crate::facts::FileFacts;
use crate::finding::{lemma_views_append, views, Finding, FindingView};
use crate::imports::imports_out;
use crate::ir::Graph;
use crate::policy::policy_out;
use crate::reach::Reach;
use crate::style::style_out;
use crate::symbols::symbols_out;
use crate::workspace::Workspace;

verus! {

/// The findings of every pass, in order, given the reachability of the
/// graph's files and the complexity findings.
pub open spec fn all_findings(
    g: Graph,
    reach: Reach,
    facts: Seq<FileFacts>,
    ws: Workspace,
    policy: PolicyConfig,
    style: StyleConfig,
    complexity: Seq<FindingView>,
) -> Seq<FindingView> {
    dead_files_out(g, reach) + exports_out(g, reach, facts, ws) + symbols_out(g, reach) + imports_out(g, facts)
        + cycle_groups(g).map_values(|ids: Seq<usize>| group_finding(g.files@, ids)) + deps_out(g, ws) + complexity
        + policy_out(g, facts, policy) + style_out(facts, style)
}

fn append(out: &mut Vec<Finding>, more: Vec<Finding>)
    ensures
        views(final(out)@) == views(old(out)@) + views(more@),
{
    let mut more = more;
    let ghost before = out@;
    let ghost added = more@;
    out.append(&mut more);
    proof {
        assert(out@ == before + added);
        lemma_views_append(before, added);
    }
}

/// Runs every pass and concatenates the findings; the complexity findings,
/// computed apart, take their place between dependencies and policy.
pub fn run_all(
    graph: &Graph,
    facts: &[FileFacts],
    ws: &Workspace,
    policy: &PolicyConfig,
    style: &StyleConfig,
    complexity: Vec<Finding>,
) -> (r: Vec<Finding>)
    requires
        graph.wf(),
    ensures
        exists|reach: Reach|
            reach.of(graph) && views(r@) == all_findings(*graph, reach, facts@, *ws, *policy, *style, views(complexity@)),
{
    let reach = Reach::compute(graph);
    let mut findings: Vec<Finding> = Vec::new();
    append(&mut findings, crate::dead_files::run(graph, &reach));
    append(&mut findings, crate::exports::run(graph, &reach, facts, ws));
    append(&mut findings, crate::symbols::run(graph, &reach));
    append(&mut findings, crate::imports::run(graph, facts));
    append(&mut findings, crate::cycles::run(graph));
    append(&mut findings, crate::deps::run(graph, ws));
    append(&mut findings, complexity);
    append(&mut findings, crate::policy::run(graph, facts, policy));
    append(&mut findings, crate::style::run(facts, style));
    assert(views(findings@) =~= all_findings(*graph, reach, facts@, *ws, *policy, *style, views(complexity@)));
    findings
}

} // verus!
