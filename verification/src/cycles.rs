//! `circular-imports`: the strongly connected components of the file import
//! graph with more than one file, smallest group first (the easiest to break).
//! Python cycles are runtime bugs waiting to fire, so an all-Python group is
//! an error; any other group is a warning.

use vstd::prelude::*;
use vstd::string::*;
use crate::finding::{Confidence, Finding, FindingView, RuleId, Severity, views, lemma_views_push};
use crate::ids::{Language, Span};
use crate::ir::{FileNode, Graph};
use crate::order::{seq_lt, str_less};
use crate::reach::reachable;
use crate::text::{copy_string, owned, push_str, string_from, u64_to_string, decimal};

verus! {

/// Exactly the node `u`.
pub open spec fn from_node(u: int) -> spec_fn(int) -> bool {
    |x: int| x == u
}

/// `a` and `b` reach each other along import edges.
pub open spec fn strongly_connected(imports: Seq<Vec<usize>>, a: int, b: int) -> bool {
    reachable(imports, from_node(a), b) && reachable(imports, from_node(b), a)
}

/// Every two members of `g` reach each other.
pub open spec fn connected_group(imports: Seq<Vec<usize>>, g: Seq<usize>) -> bool {
    forall|j: int, k: int| 0 <= j < g.len() && 0 <= k < g.len() ==> strongly_connected(imports, #[trigger] g[j] as int, #[trigger] g[k] as int)
}

pub open spec fn groups_of(r: Seq<Vec<usize>>) -> Seq<Seq<usize>> {
    r.map_values(|v: Vec<usize>| v@)
}

/// Node `u` belongs to one of the groups.
pub open spec fn in_some(groups: Seq<Seq<usize>>, u: int) -> bool {
    exists|i: int, j: int| 0 <= i < groups.len() && 0 <= j < groups[i].len() && #[trigger] groups[i][j] == u
}

/// The strongly connected components `petgraph`'s Tarjan finds, in its order.
pub uninterp spec fn tarjan_sccs(adjacency: Seq<Seq<usize>>) -> Seq<Seq<usize>>;

pub open spec fn adjacency(imports: Seq<Vec<usize>>) -> Seq<Seq<usize>> {
    imports.map_values(|v: Vec<usize>| v@)
}

/// The strongly connected components of the graph whose edges are `imports`
/// (`petgraph::algo::tarjan_scc` on a `DiGraph` of one node per file). As its
/// documentation states, they are the components: every node in exactly one,
/// the nodes of one component reaching each other, those of two different
/// ones not. Their order, and the order within one, is the algorithm's own
/// (the name `tarjan_sccs` stands for it).
#[verifier::external_body]
fn strongly_connected_components(imports: &Vec<Vec<usize>>) -> (r: Vec<Vec<usize>>)
    requires
        forall|i: int, k: int| 0 <= i < imports@.len() && 0 <= k < imports@[i]@.len()
            ==> (#[trigger] imports@[i]@[k]) < imports@.len(),
    ensures
        groups_of(r@) == tarjan_sccs(adjacency(imports@)),
        forall|i: int, j: int| 0 <= i < r@.len() && 0 <= j < r@[i]@.len() ==> (#[trigger] r@[i]@[j]) < imports@.len(),
        forall|u: int| 0 <= u < imports@.len() ==> #[trigger] in_some(groups_of(r@), u),
        forall|i: int, j: int, k: int| 0 <= i < r@.len() && 0 <= j < r@[i]@.len() && 0 <= k < r@[i]@.len()
            ==> strongly_connected(imports@, #[trigger] r@[i]@[j] as int, #[trigger] r@[i]@[k] as int),
        forall|i: int, j: int, i2: int, k: int| 0 <= i < r@.len() && 0 <= j < r@[i]@.len() && 0 <= i2 < r@.len()
            && 0 <= k < r@[i2]@.len() && i != i2
            ==> !strongly_connected(imports@, #[trigger] r@[i]@[j] as int, #[trigger] r@[i2]@[k] as int),
{
    let mut g: petgraph::graph::DiGraph<usize, ()> = petgraph::graph::DiGraph::new();
    let nodes: Vec<petgraph::graph::NodeIndex> = (0..imports.len()).map(|i| g.add_node(i)).collect();
    for (from, targets) in imports.iter().enumerate() {
        for &to in targets {
            g.add_edge(nodes[from], nodes[to], ());
        }
    }
    petgraph::algo::tarjan_scc(&g).into_iter().map(|scc| scc.into_iter().map(|n| g[n]).collect()).collect()
}

/// The first index from `i` whose file path sorts strictly after `x`'s.
pub open spec fn path_above(files: Seq<FileNode>, s: Seq<usize>, x: usize, i: int) -> int
    decreases s.len() - i,
{
    if i < 0 || i >= s.len() {
        s.len() as int
    } else if seq_lt(files[x as int].path@, files[s[i] as int].path@, true) {
        i
    } else {
        path_above(files, s, x, i + 1)
    }
}

/// File ids stably sorted by path.
pub open spec fn sort_ids(files: Seq<FileNode>, s: Seq<usize>) -> Seq<usize>
    decreases s.len(),
{
    if s.len() == 0 {
        s
    } else {
        let t = sort_ids(files, s.drop_last());
        t.insert(path_above(files, t, s.last(), 0), s.last())
    }
}

/// Group `a` sorts strictly before `b`: fewer files, or as many with a
/// first path that sorts before.
pub open spec fn group_lt(files: Seq<FileNode>, a: Seq<usize>, b: Seq<usize>) -> bool {
    a.len() < b.len() || (a.len() == b.len() && seq_lt(files[a[0] as int].path@, files[b[0] as int].path@, true))
}

pub open spec fn group_above(files: Seq<FileNode>, s: Seq<Seq<usize>>, x: Seq<usize>, i: int) -> int
    decreases s.len() - i,
{
    if i < 0 || i >= s.len() {
        s.len() as int
    } else if group_lt(files, x, s[i]) {
        i
    } else {
        group_above(files, s, x, i + 1)
    }
}

/// Groups stably sorted, smallest first.
pub open spec fn sort_groups(files: Seq<FileNode>, s: Seq<Seq<usize>>) -> Seq<Seq<usize>>
    decreases s.len(),
{
    if s.len() == 0 {
        s
    } else {
        let t = sort_groups(files, s.drop_last());
        t.insert(group_above(files, t, s.last(), 0), s.last())
    }
}

/// The components of more than one file, each sorted by path, in order.
pub open spec fn multi_groups(files: Seq<FileNode>, sccs: Seq<Seq<usize>>) -> Seq<Seq<usize>>
    decreases sccs.len(),
{
    if sccs.len() == 0 {
        Seq::empty()
    } else {
        multi_groups(files, sccs.drop_last())
            + if sccs.last().len() > 1 { seq![sort_ids(files, sccs.last())] } else { Seq::empty() }
    }
}

/// The cycle groups of the graph, as reported: multi-file components, each
/// sorted by path, smallest group first.
pub open spec fn cycle_groups(g: Graph) -> Seq<Seq<usize>> {
    sort_groups(g.files@, multi_groups(g.files@, tarjan_sccs(adjacency(g.imports@))))
}

/// The members' paths joined by ` ⇄ `.
pub open spec fn joined_members(files: Seq<FileNode>, ids: Seq<usize>) -> Seq<char>
    decreases ids.len(),
{
    if ids.len() == 0 {
        Seq::empty()
    } else if ids.len() == 1 {
        files[ids[0] as int].path@
    } else {
        joined_members(files, ids.drop_last()) + " \u{21c4} "@ + files[ids.last() as int].path@
    }
}

/// The finding of one cycle group.
pub open spec fn group_finding(files: Seq<FileNode>, ids: Seq<usize>) -> FindingView {
    FindingView {
        rule: RuleId::CircularImports,
        severity: if forall|j: int| 0 <= j < ids.len() ==> (#[trigger] files[ids[j] as int]).language is Python {
            Severity::Error
        } else {
            Severity::Warn
        },
        confidence: Confidence::High,
        symbol: None,
        file: files[ids[0] as int].path@,
        span: Span { start_line: 1, end_line: 1 },
        message: "Circular import group ("@ + decimal(ids.len()) + " files): "@ + joined_members(files, ids),
        reason: "files form a strongly-connected component in the import graph"@,
    }
}

fn sorted_ids(graph: &Graph, ids: &Vec<usize>) -> (r: Vec<usize>)
    requires
        forall|j: int| 0 <= j < ids@.len() ==> (#[trigger] ids@[j]) < graph.files@.len(),
    ensures
        r@ == sort_ids(graph.files@, ids@),
        r@.len() == ids@.len(),
        forall|j: int| 0 <= j < r@.len() ==> (#[trigger] r@[j]) < graph.files@.len(),
        forall|j: int| 0 <= j < r@.len() ==> ids@.contains(#[trigger] r@[j]),
{
    let mut out: Vec<usize> = Vec::new();
    let mut k: usize = 0;
    while k < ids.len()
        invariant
            k <= ids@.len(),
            forall|j: int| 0 <= j < ids@.len() ==> (#[trigger] ids@[j]) < graph.files@.len(),
            out@ == sort_ids(graph.files@, ids@.take(k as int)),
            out@.len() == k,
            forall|j: int| 0 <= j < out@.len() ==> (#[trigger] out@[j]) < graph.files@.len(),
            forall|j: int| 0 <= j < out@.len() ==> ids@.contains(#[trigger] out@[j]),
        decreases ids@.len() - k,
    {
        let x = ids[k];
        proof {
            assert(ids@.take(k as int + 1).drop_last() =~= ids@.take(k as int));
            assert(ids@.take(k as int + 1).last() == x);
        }
        let mut p: usize = 0;
        while p < out.len() && !str_less(graph.files[x].path.as_str(), graph.files[out[p]].path.as_str(), true)
            invariant
                p <= out@.len(),
                x < graph.files@.len(),
                forall|j: int| 0 <= j < out@.len() ==> (#[trigger] out@[j]) < graph.files@.len(),
                path_above(graph.files@, out@, x, 0) == path_above(graph.files@, out@, x, p as int),
            decreases out@.len() - p,
        {
            p += 1;
        }
        let ghost before = out@;
        out.insert(p, x);
        assert forall|j: int| 0 <= j < out@.len() implies (#[trigger] out@[j]) < graph.files@.len() && ids@.contains(out@[j]) by {
            if j < p { assert(out@[j] == before[j]); } else if j > p { assert(out@[j] == before[j - 1]); } else { assert(ids@[k as int] == x); }
        }
        k += 1;
    }
    assert(ids@.take(ids@.len() as int) =~= ids@);
    out
}

fn group_less(graph: &Graph, a: &Vec<usize>, b: &Vec<usize>) -> (r: bool)
    requires
        a@.len() > 0,
        b@.len() > 0,
        a@[0] < graph.files@.len(),
        b@[0] < graph.files@.len(),
    ensures
        r == group_lt(graph.files@, a@, b@),
{
    a.len() < b.len() || (a.len() == b.len() && str_less(graph.files[a[0]].path.as_str(), graph.files[b[0]].path.as_str(), true))
}

/// The message and severity of one cycle group.
fn group_finding_of(graph: &Graph, ids: &Vec<usize>) -> (r: Finding)
    requires
        ids@.len() > 1,
        forall|j: int| 0 <= j < ids@.len() ==> (#[trigger] ids@[j]) < graph.files@.len(),
    ensures
        r@ == group_finding(graph.files@, ids@),
{
    let mut all_python = true;
    let mut k: usize = 0;
    while k < ids.len()
        invariant
            k <= ids@.len(),
            forall|j: int| 0 <= j < ids@.len() ==> (#[trigger] ids@[j]) < graph.files@.len(),
            all_python == forall|j: int| 0 <= j < k ==> (#[trigger] graph.files@[ids@[j] as int]).language is Python,
        decreases ids@.len() - k,
    {
        if !graph.files[ids[k]].language.is_python() {
            all_python = false;
        }
        k += 1;
    }
    let mut m: Vec<char> = Vec::new();
    push_str(&mut m, "Circular import group (");
    let n = u64_to_string(ids.len() as u64);
    push_str(&mut m, n.as_str());
    push_str(&mut m, " files): ");
    let ghost base = m@;
    let mut k: usize = 0;
    while k < ids.len()
        invariant
            k <= ids@.len(),
            forall|j: int| 0 <= j < ids@.len() ==> (#[trigger] ids@[j]) < graph.files@.len(),
            m@ == base + joined_members(graph.files@, ids@.take(k as int)),
        decreases ids@.len() - k,
    {
        proof {
            let t = ids@.take(k as int + 1);
            assert(t.drop_last() =~= ids@.take(k as int));
            assert(t.last() == ids@[k as int]);
            if k == 0 { assert(t[0] == ids@[0]); }
        }
        if k > 0 {
            push_str(&mut m, " \u{21c4} ");
        }
        push_str(&mut m, graph.files[ids[k]].path.as_str());
        proof {
            if k == 0 {
                assert(m@ =~= base + joined_members(graph.files@, ids@.take(1)));
            } else {
                assert(m@ =~= base + joined_members(graph.files@, ids@.take(k as int + 1)));
            }
        }
        k += 1;
    }
    assert(ids@.take(ids@.len() as int) =~= ids@);
    Finding {
        rule: RuleId::CircularImports,
        severity: if all_python { Severity::Error } else { Severity::Warn },
        confidence: Confidence::High,
        symbol: None,
        file: copy_string(&graph.files[ids[0]].path),
        span: Span::new(1, 1),
        message: string_from(m.as_slice()),
        reason: owned("files form a strongly-connected component in the import graph"),
    }
}

/// One finding per import cycle: the strongly connected components of more
/// than one file, smallest first, members in path order.
pub fn run(graph: &Graph) -> (r: Vec<Finding>)
    requires
        graph.wf(),
    ensures
        views(r@) == cycle_groups(*graph).map_values(|ids: Seq<usize>| group_finding(graph.files@, ids)),
        forall|a: int| 0 <= a < cycle_groups(*graph).len() ==> (#[trigger] cycle_groups(*graph)[a]).len() > 1
            && connected_group(graph.imports@, cycle_groups(*graph)[a]),
{
    let sccs = strongly_connected_components(&graph.imports);
    let ghost t = tarjan_sccs(adjacency(graph.imports@));
    let mut groups: Vec<Vec<usize>> = Vec::new();
    let mut i: usize = 0;
    while i < sccs.len()
        invariant
            i <= sccs@.len(),
            groups_of(sccs@) == t,
            forall|a: int, j: int| 0 <= a < sccs@.len() && 0 <= j < sccs@[a]@.len() ==> (#[trigger] sccs@[a]@[j]) < graph.files@.len(),
            groups_of(groups@) == multi_groups(graph.files@, t.take(i as int)),
            forall|a: int| 0 <= a < groups@.len() ==> (#[trigger] groups@[a])@.len() > 1,
            forall|a: int, j: int| 0 <= a < groups@.len() && 0 <= j < groups@[a]@.len() ==> (#[trigger] groups@[a]@[j]) < graph.files@.len(),
            forall|a: int, j: int, k: int| 0 <= a < sccs@.len() && 0 <= j < sccs@[a]@.len() && 0 <= k < sccs@[a]@.len()
                ==> strongly_connected(graph.imports@, #[trigger] sccs@[a]@[j] as int, #[trigger] sccs@[a]@[k] as int),
            forall|a: int| 0 <= a < groups@.len() ==> connected_group(graph.imports@, #[trigger] groups@[a]@),
        decreases sccs@.len() - i,
    {
        proof {
            assert(t.take(i as int + 1).drop_last() =~= t.take(i as int));
            assert(t.take(i as int + 1).last() == sccs@[i as int]@);
        }
        if sccs[i].len() > 1 {
            let sorted = sorted_ids(graph, &sccs[i]);
            assert forall|j: int, k: int| 0 <= j < sorted@.len() && 0 <= k < sorted@.len() implies
                strongly_connected(graph.imports@, #[trigger] sorted@[j] as int, #[trigger] sorted@[k] as int) by {
                let j2 = choose|q: int| 0 <= q < sccs@[i as int]@.len() && sccs@[i as int]@[q] == sorted@[j];
                let k2 = choose|q: int| 0 <= q < sccs@[i as int]@.len() && sccs@[i as int]@[q] == sorted@[k];
                assert(sccs@[i as int]@.contains(sorted@[j]));
                assert(sccs@[i as int]@.contains(sorted@[k]));
                assert(strongly_connected(graph.imports@, sccs@[i as int]@[j2] as int, sccs@[i as int]@[k2] as int));
            }
            let ghost before = groups@;
            groups.push(sorted);
            assert(groups_of(groups@) =~= groups_of(before).push(sort_ids(graph.files@, sccs@[i as int]@)));
        } else {
            assert(multi_groups(graph.files@, t.take(i as int + 1)) =~= multi_groups(graph.files@, t.take(i as int)));
        }
        i += 1;
    }
    assert(t.take(t.len() as int) =~= t);
    let ghost mg = groups_of(groups@);
    let mut sorted: Vec<Vec<usize>> = Vec::new();
    let mut rest = groups;
    let ghost mut n: int = 0;
    while rest.len() > 0
        invariant
            0 <= n <= mg.len(),
            groups_of(rest@) == mg.skip(n),
            groups_of(sorted@) == sort_groups(graph.files@, mg.take(n)),
            forall|a: int| 0 <= a < rest@.len() ==> (#[trigger] rest@[a])@.len() > 1,
            forall|a: int, j: int| 0 <= a < rest@.len() && 0 <= j < rest@[a]@.len() ==> (#[trigger] rest@[a]@[j]) < graph.files@.len(),
            forall|a: int| 0 <= a < rest@.len() ==> connected_group(graph.imports@, #[trigger] rest@[a]@),
            forall|a: int| 0 <= a < sorted@.len() ==> connected_group(graph.imports@, #[trigger] sorted@[a]@),
            forall|a: int| 0 <= a < sorted@.len() ==> (#[trigger] sorted@[a])@.len() > 1,
            forall|a: int, j: int| 0 <= a < sorted@.len() && 0 <= j < sorted@[a]@.len() ==> (#[trigger] sorted@[a]@[j]) < graph.files@.len(),
        decreases rest@.len(),
    {
        let ghost rb = rest@;
        assert(groups_of(rb)[0] == mg.skip(n)[0]);
        let x = rest.remove(0);
        assert(rest@ =~= rb.skip(1));
        assert(groups_of(rest@) =~= groups_of(rb).skip(1));
        assert(mg.skip(n).skip(1) =~= mg.skip(n + 1));
        assert(x@ == mg[n]);
        assert(rb[0] == x);
        proof {
            assert(mg.take(n + 1).drop_last() =~= mg.take(n));
            assert(mg.take(n + 1).last() == x@);
        }
        let ghost sv = groups_of(sorted@);
        let mut p: usize = 0;
        while p < sorted.len() && !group_less(graph, &x, &sorted[p])
            invariant
                p <= sorted@.len(),
                sv == groups_of(sorted@),
                x@.len() > 1,
                x@[0] < graph.files@.len(),
                forall|a: int| 0 <= a < sorted@.len() ==> (#[trigger] sorted@[a])@.len() > 1,
                forall|a: int, j: int| 0 <= a < sorted@.len() && 0 <= j < sorted@[a]@.len() ==> (#[trigger] sorted@[a]@[j]) < graph.files@.len(),
                group_above(graph.files@, sv, x@, 0) == group_above(graph.files@, sv, x@, p as int),
            decreases sorted@.len() - p,
        {
            assert(sorted@[p as int]@[0] < graph.files@.len());
            p += 1;
        }
        let ghost sb = sorted@;
        let ghost xv = x@;
        sorted.insert(p, x);
        assert(groups_of(sorted@) =~= sv.insert(p as int, xv));
        assert forall|a: int| 0 <= a < sorted@.len() implies (#[trigger] sorted@[a])@.len() > 1
            && connected_group(graph.imports@, sorted@[a]@) by {
            if a < p { assert(sorted@[a] == sb[a]); } else if a > p { assert(sorted@[a] == sb[a - 1]); } else { assert(sorted@[a] == rb[0]); }
        }
        assert forall|a: int| 0 <= a < rest@.len() implies connected_group(graph.imports@, #[trigger] rest@[a]@) by {
            assert(rest@[a] == rb[a + 1]);
        }
        assert forall|a: int, j: int| 0 <= a < sorted@.len() && 0 <= j < sorted@[a]@.len() implies (#[trigger] sorted@[a]@[j]) < graph.files@.len() by {
            if a < p { assert(sorted@[a] == sb[a]); } else if a > p { assert(sorted@[a] == sb[a - 1]); } else { assert(sorted@[a] == rb[0]); }
        }
        proof { n = n + 1; }
    }
    assert(mg.take(n) =~= mg);
    let ghost cg = groups_of(sorted@);
    let mut out: Vec<Finding> = Vec::new();
    let mut k: usize = 0;
    while k < sorted.len()
        invariant
            k <= sorted@.len(),
            cg == groups_of(sorted@),
            forall|a: int| 0 <= a < sorted@.len() ==> (#[trigger] sorted@[a])@.len() > 1,
            forall|a: int| 0 <= a < sorted@.len() ==> connected_group(graph.imports@, #[trigger] sorted@[a]@),
            forall|a: int, j: int| 0 <= a < sorted@.len() && 0 <= j < sorted@[a]@.len() ==> (#[trigger] sorted@[a]@[j]) < graph.files@.len(),
            views(out@) == cg.take(k as int).map_values(|ids: Seq<usize>| group_finding(graph.files@, ids)),
        decreases sorted@.len() - k,
    {
        let fd = group_finding_of(graph, &sorted[k]);
        proof { lemma_views_push(out@, fd); }
        out.push(fd);
        assert(cg.take(k as int + 1).map_values(|ids: Seq<usize>| group_finding(graph.files@, ids))
            =~= cg.take(k as int).map_values(|ids: Seq<usize>| group_finding(graph.files@, ids)).push(group_finding(graph.files@, cg[k as int])));
        k += 1;
    }
    assert(cg.take(cg.len() as int) =~= cg);
    assert forall|a: int| 0 <= a < cg.len() implies (#[trigger] cg[a]).len() > 1 && connected_group(graph.imports@, cg[a]) by {
        assert(cg[a] == sorted@[a]@);
    }
    out
}

} // verus!
