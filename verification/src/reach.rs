//! Reachability — the multi-source BFS over the file import graph that the
//! dead-code passes build on, computed once per scan.

use vstd::prelude::*;
use crate::ir::{edge, FileNode, Graph};

verus! {

/// The files reachable from a seed in at most `k` import steps.
pub open spec fn reach_set(imports: Seq<Vec<usize>>, seed: spec_fn(int) -> bool, k: nat) -> Set<int>
    decreases k,
{
    if k == 0 {
        Set::new(|v: int| 0 <= v < imports.len() && seed(v))
    } else {
        let p = reach_set(imports, seed, (k - 1) as nat);
        p.union(Set::new(|v: int| exists|u: int| #[trigger] p.contains(u) && edge(imports, u, v)))
    }
}

pub open spec fn reach_in(imports: Seq<Vec<usize>>, seed: spec_fn(int) -> bool, v: int, k: nat) -> bool {
    reach_set(imports, seed, k).contains(v)
}

/// `v` is reachable from some seed along import edges.
pub open spec fn reachable(imports: Seq<Vec<usize>>, seed: spec_fn(int) -> bool, v: int) -> bool {
    exists|k: nat| #[trigger] reach_set(imports, seed, k).contains(v)
}

/// Number of `true` entries.
pub open spec fn count_true(s: Seq<bool>) -> nat
    decreases s.len(),
{
    if s.len() == 0 {
        0
    } else {
        count_true(s.drop_last()) + if s.last() { 1nat } else { 0nat }
    }
}

proof fn lemma_count_bound(s: Seq<bool>)
    ensures
        count_true(s) <= s.len(),
    decreases s.len(),
{
    if s.len() > 0 {
        lemma_count_bound(s.drop_last());
    }
}

proof fn lemma_count_none(s: Seq<bool>)
    requires
        forall|j: int| 0 <= j < s.len() ==> !s[j],
    ensures
        count_true(s) == 0,
    decreases s.len(),
{
    if s.len() > 0 {
        lemma_count_none(s.drop_last());
    }
}

proof fn lemma_count_set(s: Seq<bool>, i: int)
    requires
        0 <= i < s.len(),
        !s[i],
    ensures
        count_true(s.update(i, true)) == count_true(s) + 1,
    decreases s.len(),
{
    let t = s.update(i, true);
    if i == s.len() - 1 {
        assert(t.drop_last() == s.drop_last());
    } else {
        assert(t.drop_last() == s.drop_last().update(i, true));
        lemma_count_set(s.drop_last(), i);
    }
}

proof fn lemma_reach_in_range(imports: Seq<Vec<usize>>, seed: spec_fn(int) -> bool, v: int, k: nat)
    requires
        reach_in(imports, seed, v, k),
        forall|a: int, b: int| #[trigger] edge(imports, a, b) ==> b < imports.len(),
    ensures
        0 <= v < imports.len(),
    decreases k,
{
    if k > 0 {
        if reach_in(imports, seed, v, (k - 1) as nat) {
            lemma_reach_in_range(imports, seed, v, (k - 1) as nat);
        }
    }
}

/// A set that holds the seeds and is closed under edges holds everything
/// reachable.
proof fn lemma_closed_holds_reach(
    imports: Seq<Vec<usize>>,
    seed: spec_fn(int) -> bool,
    s: Seq<bool>,
    v: int,
    k: nat,
)
    requires
        s.len() == imports.len(),
        forall|u: int| 0 <= u < imports.len() && seed(u) ==> s[u],
        forall|u: int, w: int| 0 <= u < s.len() && s[u] && #[trigger] edge(imports, u, w) ==> 0 <= w < s.len() && s[w],
        reach_in(imports, seed, v, k),
    ensures
        0 <= v < s.len() && s[v],
    decreases k,
{
    if k > 0 {
        if reach_in(imports, seed, v, (k - 1) as nat) {
            lemma_closed_holds_reach(imports, seed, s, v, (k - 1) as nat);
        } else {
            let u = choose|u: int| #[trigger] reach_set(imports, seed, (k - 1) as nat).contains(u) && edge(imports, u, v);
            lemma_closed_holds_reach(imports, seed, s, u, (k - 1) as nat);
            assert(s[u]);
        }
    }
}

/// Multi-source BFS: `r[v]` holds exactly when `v` is reachable from a seed.
pub fn bfs(imports: &Vec<Vec<usize>>, seeds: &Vec<usize>, Ghost(seed): Ghost<spec_fn(int) -> bool>) -> (r: Vec<bool>)
    requires
        forall|i: int, k: int| 0 <= i < imports@.len() && 0 <= k < imports@[i]@.len()
            ==> (#[trigger] imports@[i]@[k]) < imports@.len(),
        forall|i: int| 0 <= i < seeds@.len() ==> (#[trigger] seeds@[i]) < imports@.len() && seed(seeds@[i] as int),
        forall|v: int| 0 <= v < imports@.len() && #[trigger] seed(v) ==> seeds@.contains(v as usize),
    ensures
        r@.len() == imports@.len(),
        forall|v: int| 0 <= v < imports@.len() ==> (r@[v] <==> reachable(imports@, seed, v)),
{
    let n = imports.len();
    let mut seen: Vec<bool> = Vec::new();
    let mut i: usize = 0;
    while i < n
        invariant
            i <= n == imports@.len(),
            seen@.len() == i,
            forall|j: int| 0 <= j < i ==> !seen@[j],
        decreases n - i,
    {
        seen.push(false);
        i += 1;
    }
    proof { lemma_count_none(seen@); }
    let mut queue: Vec<usize> = Vec::new();
    let mut s: usize = 0;
    while s < seeds.len()
        invariant
            n == imports@.len(),
            seen@.len() == n,
            s <= seeds@.len(),
            forall|i: int| 0 <= i < seeds@.len() ==> (#[trigger] seeds@[i]) < imports@.len() && seed(seeds@[i] as int),
            queue@.len() == count_true(seen@),
            forall|q: int| 0 <= q < queue@.len() ==> (#[trigger] queue@[q]) < n && seen@[queue@[q] as int],
            forall|v: int| 0 <= v < n && seen@[v] ==> queue@.contains(v as usize),
            forall|v: int| 0 <= v < n && seen@[v] ==> reachable(imports@, seed, v),
            forall|j: int| 0 <= j < s ==> seen@[#[trigger] seeds@[j] as int],
        decreases seeds@.len() - s,
    {
        let v = seeds[s];
        if !seen[v] {
            proof {
                lemma_count_set(seen@, v as int);
                assert(reach_set(imports@, seed, 0).contains(v as int));
            }
            let ghost old_queue = queue@;
            seen.set(v, true);
            queue.push(v);
            proof {
                assert(queue@[queue@.len() - 1] == v);
                assert forall|w: int| 0 <= w < n && seen@[w] implies queue@.contains(w as usize) by {
                    if w != v as int {
                        let q = choose|q: int| 0 <= q < old_queue.len() && old_queue[q] == w as usize;
                        assert(queue@[q] == w as usize);
                    }
                }
            }
        }
        s += 1;
    }
    let mut head: usize = 0;
    proof { lemma_count_bound(seen@); }
    while head < queue.len()
        invariant
            n == imports@.len(),
            seen@.len() == n,
            forall|i: int, k: int| 0 <= i < imports@.len() && 0 <= k < imports@[i]@.len()
                ==> (#[trigger] imports@[i]@[k]) < imports@.len(),
            forall|v: int| 0 <= v < n && seed(v) ==> seen@[v],
            head <= queue@.len() == count_true(seen@) <= n,
            forall|q: int| 0 <= q < queue@.len() ==> (#[trigger] queue@[q]) < n && seen@[queue@[q] as int],
            forall|v: int| 0 <= v < n && seen@[v] ==> queue@.contains(v as usize),
            forall|v: int| 0 <= v < n && seen@[v] ==> reachable(imports@, seed, v),
            forall|q: int, w: int| 0 <= q < head && #[trigger] edge(imports@, queue@[q] as int, w) ==> seen@[w],
        decreases n - head,
    {
        let f = queue[head];
        let targets = &imports[f];
        let mut t: usize = 0;
        while t < targets.len()
            invariant
                n == imports@.len(),
                seen@.len() == n,
                f < n,
                targets == &imports@[f as int],
                forall|i: int, k: int| 0 <= i < imports@.len() && 0 <= k < imports@[i]@.len()
                    ==> (#[trigger] imports@[i]@[k]) < imports@.len(),
                forall|v: int| 0 <= v < n && seed(v) ==> seen@[v],
                head < queue@.len() == count_true(seen@) <= n,
                queue@[head as int] == f,
                reachable(imports@, seed, f as int),
                t <= targets@.len(),
                forall|q: int| 0 <= q < queue@.len() ==> (#[trigger] queue@[q]) < n && seen@[queue@[q] as int],
                forall|v: int| 0 <= v < n && seen@[v] ==> queue@.contains(v as usize),
                forall|v: int| 0 <= v < n && seen@[v] ==> reachable(imports@, seed, v),
                forall|q: int, w: int| 0 <= q < head && #[trigger] edge(imports@, queue@[q] as int, w) ==> seen@[w],
                forall|k: int| 0 <= k < t ==> seen@[#[trigger] targets@[k] as int],
            decreases targets@.len() - t,
        {
            let next = targets[t];
            if !seen[next] {
                proof {
                    let kf = choose|k: nat| #[trigger] reach_set(imports@, seed, k).contains(f as int);
                    assert(imports@[f as int]@[t as int] == next);
                    assert(edge(imports@, f as int, next as int));
                    let k1: nat = kf + 1;
                    assert(reach_set(imports@, seed, (k1 - 1) as nat).contains(f as int));
                    assert(reach_set(imports@, seed, k1).contains(next as int));
                    lemma_count_set(seen@, next as int);
                    lemma_count_bound(seen@.update(next as int, true));
                }
                let ghost old_queue = queue@;
                let ghost old_seen = seen@;
                seen.set(next, true);
                queue.push(next);
                proof {
                    assert(queue@[queue@.len() - 1] == next);
                    assert forall|w: int| 0 <= w < n && seen@[w] implies queue@.contains(w as usize) by {
                        if w != next as int {
                            let q = choose|q: int| 0 <= q < old_queue.len() && old_queue[q] == w as usize;
                            assert(queue@[q] == w as usize);
                        }
                    }
                    assert forall|q: int, w: int| 0 <= q < head && #[trigger] edge(imports@, queue@[q] as int, w) implies seen@[w] by {
                        assert(queue@[q] == old_queue[q]);
                        assert(edge(imports@, old_queue[q] as int, w));
                        assert(old_seen[w]);
                    }
                }
            }
            t += 1;
        }
        proof {
            assert forall|q: int, w: int| 0 <= q < head + 1 && #[trigger] edge(imports@, queue@[q] as int, w) implies seen@[w] by {
                if q == head {
                    let k = choose|k: int| 0 <= k < imports@[f as int]@.len() && #[trigger] imports@[f as int]@[k] as int == w;
                    assert(targets@[k] as int == w);
                    assert(seen@[targets@[k] as int]);
                }
            }
        }
        head += 1;
    }
    proof {
        assert forall|u: int, w: int| 0 <= u < seen@.len() && seen@[u] && #[trigger] edge(imports@, u, w)
            implies 0 <= w < seen@.len() && seen@[w] by {
            assert(queue@.contains(u as usize));
            let q = choose|q: int| 0 <= q < queue@.len() && queue@[q] == u as usize;
            let k = choose|k: int| 0 <= k < imports@[u]@.len() && #[trigger] imports@[u]@[k] as int == w;
            assert(imports@[u]@[k] < imports@.len());
            assert(edge(imports@, queue@[q] as int, w));
        }
        assert forall|v: int| 0 <= v < imports@.len() && reachable(imports@, seed, v) implies seen@[v] by {
            let k = choose|k: nat| #[trigger] reach_set(imports@, seed, k).contains(v);
            lemma_closed_holds_reach(imports@, seed, seen@, v, k);
        }
    }
    seen
}

} // verus!

verus! {

/// A file that seeds reachability: an entry point, an implicitly used file,
/// or a tool config.
pub open spec fn is_seed(f: FileNode) -> bool {
    f.is_entry || f.is_implicit_used || f.role is Config
}

pub open spec fn any_seed(files: Seq<FileNode>) -> spec_fn(int) -> bool {
    |v: int| is_seed(files[v])
}

pub open spec fn prod_seed(files: Seq<FileNode>) -> spec_fn(int) -> bool {
    |v: int| is_seed(files[v]) && !files[v].is_test
}

pub open spec fn test_seed(files: Seq<FileNode>) -> spec_fn(int) -> bool {
    |v: int| is_seed(files[v]) && files[v].is_test
}

/// Per-file reachability from the two entry-point classes.
pub struct Reach {
    /// Reachable from any entry point (including tests).
    pub reachable: Vec<bool>,
    /// Reachable from production entry points only (tests excluded).
    pub prod_reachable: Vec<bool>,
    /// Reachable from test entry points.
    pub test_reachable: Vec<bool>,
}

impl Reach {
    /// The three reachability tables agree with the graph's import edges.
    pub open spec fn of(&self, g: &Graph) -> bool {
        &&& self.reachable@.len() == g.files@.len()
        &&& self.prod_reachable@.len() == g.files@.len()
        &&& self.test_reachable@.len() == g.files@.len()
        &&& forall|v: int| 0 <= v < g.files@.len() ==>
            (self.reachable@[v] <==> reachable(g.imports@, any_seed(g.files@), v))
        &&& forall|v: int| 0 <= v < g.files@.len() ==>
            (self.prod_reachable@[v] <==> reachable(g.imports@, prod_seed(g.files@), v))
        &&& forall|v: int| 0 <= v < g.files@.len() ==>
            (self.test_reachable@[v] <==> reachable(g.imports@, test_seed(g.files@), v))
    }

    pub fn compute(graph: &Graph) -> (r: Reach)
        requires
            graph.wf(),
        ensures
            r.of(graph),
            forall|v: int| 0 <= v < graph.files@.len() ==>
                (r.reachable@[v] <==> r.prod_reachable@[v] || r.test_reachable@[v]),
    {
        broadcast use vstd::seq_lib::group_seq_properties;
        let mut all_seeds: Vec<usize> = Vec::new();
        let mut prod_seeds: Vec<usize> = Vec::new();
        let mut test_seeds: Vec<usize> = Vec::new();
        let ghost files = graph.files@;
        let mut i: usize = 0;
        while i < graph.files.len()
            invariant
                graph.wf(),
                files == graph.files@,
                i <= files.len(),
                forall|k: int| 0 <= k < all_seeds@.len() ==> (#[trigger] all_seeds@[k]) < i && is_seed(files[all_seeds@[k] as int]),
                forall|k: int| 0 <= k < prod_seeds@.len() ==> (#[trigger] prod_seeds@[k]) < i
                    && is_seed(files[prod_seeds@[k] as int]) && !files[prod_seeds@[k] as int].is_test,
                forall|k: int| 0 <= k < test_seeds@.len() ==> (#[trigger] test_seeds@[k]) < i
                    && is_seed(files[test_seeds@[k] as int]) && files[test_seeds@[k] as int].is_test,
                forall|v: int| 0 <= v < i && is_seed(#[trigger] files[v]) ==> all_seeds@.contains(v as usize),
                forall|v: int| 0 <= v < i && is_seed(#[trigger] files[v]) && !files[v].is_test ==> prod_seeds@.contains(v as usize),
                forall|v: int| 0 <= v < i && is_seed(#[trigger] files[v]) && files[v].is_test ==> test_seeds@.contains(v as usize),
            decreases files.len() - i,
        {
            let f = &graph.files[i];
            assert(files[i as int] == *f);
            if f.is_entry || f.is_implicit_used || f.role.is_reachability_seed() {
                proof { lemma_push_keeps(all_seeds@, i); }
                all_seeds.push(i);
                if f.is_test {
                    proof { lemma_push_keeps(test_seeds@, i); }
                    test_seeds.push(i);
                } else {
                    proof { lemma_push_keeps(prod_seeds@, i); }
                    prod_seeds.push(i);
                }
            }
            i += 1;
        }
        let reachable = bfs(&graph.imports, &all_seeds, Ghost(any_seed(files)));
        let prod_reachable = bfs(&graph.imports, &prod_seeds, Ghost(prod_seed(files)));
        let test_reachable = bfs(&graph.imports, &test_seeds, Ghost(test_seed(files)));
        proof {
            assert forall|v: int| 0 <= v < files.len() implies
                (reachable@[v] <==> prod_reachable@[v] || test_reachable@[v]) by {
                law_reach_splits(graph, v);
            }
        }
        Reach { reachable, prod_reachable, test_reachable }
    }
}

proof fn lemma_push_keeps(s: Seq<usize>, x: usize)
    ensures
        forall|y: usize| s.contains(y) ==> #[trigger] s.push(x).contains(y),
        s.push(x).contains(x),
{
    assert(s.push(x)[s.len() as int] == x);
    assert forall|y: usize| s.contains(y) implies #[trigger] s.push(x).contains(y) by {
        let k = choose|k: int| 0 <= k < s.len() && s[k] == y;
        assert(s.push(x)[k] == y);
    }
}

proof fn lemma_reach_set_split(imports: Seq<Vec<usize>>, files: Seq<FileNode>, k: nat)
    ensures
        reach_set(imports, any_seed(files), k)
            == reach_set(imports, prod_seed(files), k).union(reach_set(imports, test_seed(files), k)),
    decreases k,
{
    if k == 0 {
        assert(reach_set(imports, any_seed(files), 0)
            =~= reach_set(imports, prod_seed(files), 0).union(reach_set(imports, test_seed(files), 0)));
    } else {
        lemma_reach_set_split(imports, files, (k - 1) as nat);
        let a = reach_set(imports, any_seed(files), (k - 1) as nat);
        let p = reach_set(imports, prod_seed(files), (k - 1) as nat);
        let t = reach_set(imports, test_seed(files), (k - 1) as nat);
        assert(reach_set(imports, any_seed(files), k)
            =~= reach_set(imports, prod_seed(files), k).union(reach_set(imports, test_seed(files), k))) by {
            assert forall|v: int| #[trigger] reach_set(imports, any_seed(files), k).contains(v) implies
                reach_set(imports, prod_seed(files), k).union(reach_set(imports, test_seed(files), k)).contains(v) by {
                if !a.contains(v) {
                    let u = choose|u: int| #[trigger] a.contains(u) && edge(imports, u, v);
                    if p.contains(u) {
                        assert(p.contains(u) && edge(imports, u, v));
                    } else {
                        assert(t.contains(u) && edge(imports, u, v));
                    }
                }
            }
            assert forall|v: int| #[trigger] reach_set(imports, prod_seed(files), k).union(reach_set(imports, test_seed(files), k)).contains(v)
                implies reach_set(imports, any_seed(files), k).contains(v) by {
                if !p.contains(v) && !t.contains(v) {
                    if reach_set(imports, prod_seed(files), k).contains(v) {
                        let u = choose|u: int| #[trigger] p.contains(u) && edge(imports, u, v);
                        assert(a.contains(u) && edge(imports, u, v));
                    } else {
                        let u = choose|u: int| #[trigger] t.contains(u) && edge(imports, u, v);
                        assert(a.contains(u) && edge(imports, u, v));
                    }
                }
            }
        }
    }
}

/// A file is reachable from some entry point exactly when it is reachable
/// from a production entry point or from a test entry point.
pub proof fn law_reach_splits(g: &Graph, v: int)
    ensures
        reachable(g.imports@, any_seed(g.files@), v)
            <==> reachable(g.imports@, prod_seed(g.files@), v) || reachable(g.imports@, test_seed(g.files@), v),
{
    let imports = g.imports@;
    let files = g.files@;
    if reachable(imports, any_seed(files), v) {
        let k = choose|k: nat| #[trigger] reach_set(imports, any_seed(files), k).contains(v);
        lemma_reach_set_split(imports, files, k);
        if reach_set(imports, prod_seed(files), k).contains(v) {
            assert(reachable(imports, prod_seed(files), v));
        } else {
            assert(reachable(imports, test_seed(files), v));
        }
    }
    if reachable(imports, prod_seed(files), v) {
        let k = choose|k: nat| #[trigger] reach_set(imports, prod_seed(files), k).contains(v);
        lemma_reach_set_split(imports, files, k);
        assert(reach_set(imports, any_seed(files), k).contains(v));
    }
    if reachable(imports, test_seed(files), v) {
        let k = choose|k: nat| #[trigger] reach_set(imports, test_seed(files), k).contains(v);
        lemma_reach_set_split(imports, files, k);
        assert(reach_set(imports, any_seed(files), k).contains(v));
    }
}

} // verus!

verus! {

/// Reachability starts from the entry points, the implicitly used files and
/// the tool configs (whose imports stay live), and follows every import:
/// such a file is reachable, from production when it is no test and from the
/// tests when it is one; whatever a reachable file imports is reachable, and
/// likewise for production and test reachability.
pub proof fn law_reach_seeds_and_imports(r: Reach, g: Graph, v: int, w: int)
    requires
        g.wf(),
        r.of(&g),
        0 <= v < g.files@.len(),
    ensures
        g.files@[v].is_entry || g.files@[v].is_implicit_used || g.files@[v].role is Config ==> {
            &&& r.reachable@[v]
            &&& (!g.files@[v].is_test ==> r.prod_reachable@[v])
            &&& (g.files@[v].is_test ==> r.test_reachable@[v])
        },
        (exists|k: int| 0 <= k < g.imports@[v]@.len() && #[trigger] g.imports@[v]@[k] as int == w) ==> {
            &&& 0 <= w < g.files@.len()
            &&& (r.reachable@[v] ==> r.reachable@[w])
            &&& (r.prod_reachable@[v] ==> r.prod_reachable@[w])
            &&& (r.test_reachable@[v] ==> r.test_reachable@[w])
        },
{
    let imports = g.imports@;
    let files = g.files@;
    if files[v].is_entry || files[v].is_implicit_used || files[v].role is Config {
        assert(reach_set(imports, any_seed(files), 0).contains(v));
        if !files[v].is_test {
            assert(reach_set(imports, prod_seed(files), 0).contains(v));
        } else {
            assert(reach_set(imports, test_seed(files), 0).contains(v));
        }
    }
    if exists|k: int| 0 <= k < imports[v]@.len() && #[trigger] imports[v]@[k] as int == w {
        let k = choose|k: int| 0 <= k < imports[v]@.len() && #[trigger] imports[v]@[k] as int == w;
        assert(imports[v]@[k] < files.len());
        assert(edge(imports, v, w));
        lemma_step(imports, any_seed(files), v, w);
        lemma_step(imports, prod_seed(files), v, w);
        lemma_step(imports, test_seed(files), v, w);
    }
}

proof fn lemma_reached_how(imports: Seq<Vec<usize>>, seed: spec_fn(int) -> bool, v: int, k: nat)
    requires
        reach_set(imports, seed, k).contains(v),
    ensures
        seed(v) || exists|u: int| #[trigger] edge(imports, u, v),
    decreases k,
{
    if k > 0 {
        let p = reach_set(imports, seed, (k - 1) as nat);
        if p.contains(v) {
            lemma_reached_how(imports, seed, v, (k - 1) as nat);
        } else {
            let u = choose|u: int| #[trigger] p.contains(u) && edge(imports, u, v);
            assert(edge(imports, u, v));
        }
    }
}

/// Reachability starts nowhere else: a file that is no entry point, not
/// implicitly used, no tool config, and that no file imports, is not
/// reachable.
pub proof fn law_unseeded_unimported_is_unreachable(r: Reach, g: Graph, v: int)
    requires
        g.wf(),
        r.of(&g),
        0 <= v < g.files@.len(),
        !g.files@[v].is_entry,
        !g.files@[v].is_implicit_used,
        !(g.files@[v].role is Config),
        forall|u: int, k: int| 0 <= u < g.imports@.len() && 0 <= k < g.imports@[u]@.len() ==> #[trigger] g.imports@[u]@[k] as int != v,
    ensures
        !r.reachable@[v],
        !r.prod_reachable@[v],
        !r.test_reachable@[v],
{
    let imports = g.imports@;
    let files = g.files@;
    assert forall|u: int| !#[trigger] edge(imports, u, v) by {
        if edge(imports, u, v) {
            let k = choose|k: int| 0 <= k < imports[u]@.len() && #[trigger] imports[u]@[k] as int == v;
            assert(imports[u]@[k] as int != v);
        }
    }
    if reachable(imports, any_seed(files), v) {
        let k = choose|k: nat| #[trigger] reach_set(imports, any_seed(files), k).contains(v);
        lemma_reached_how(imports, any_seed(files), v, k);
    }
    if reachable(imports, prod_seed(files), v) {
        let k = choose|k: nat| #[trigger] reach_set(imports, prod_seed(files), k).contains(v);
        lemma_reached_how(imports, prod_seed(files), v, k);
    }
    if reachable(imports, test_seed(files), v) {
        let k = choose|k: nat| #[trigger] reach_set(imports, test_seed(files), k).contains(v);
        lemma_reached_how(imports, test_seed(files), v, k);
    }
}

proof fn lemma_step(imports: Seq<Vec<usize>>, seed: spec_fn(int) -> bool, v: int, w: int)
    requires
        edge(imports, v, w),
    ensures
        reachable(imports, seed, v) ==> reachable(imports, seed, w),
{
    if reachable(imports, seed, v) {
        let k = choose|k: nat| #[trigger] reach_set(imports, seed, k).contains(v);
        let p = reach_set(imports, seed, k);
        assert(p.contains(v) && edge(imports, v, w));
        assert(reach_set(imports, seed, k + 1).contains(w));
    }
}

} // verus!

verus! {

proof fn lemma_reach_within(imports: Seq<Vec<usize>>, seed: spec_fn(int) -> bool, s: Set<int>, k: nat)
    requires
        forall|v: int| 0 <= v < imports.len() && #[trigger] seed(v) ==> s.contains(v),
        forall|u: int, w: int| s.contains(u) && #[trigger] edge(imports, u, w) ==> #[trigger] s.contains(w),
    ensures
        reach_set(imports, seed, k).subset_of(s),
    decreases k,
{
    if k > 0 {
        lemma_reach_within(imports, seed, s, (k - 1) as nat);
        let p = reach_set(imports, seed, (k - 1) as nat);
        assert forall|w: int| reach_set(imports, seed, k).contains(w) implies s.contains(w) by {
            if !p.contains(w) {
                let u = choose|u: int| #[trigger] p.contains(u) && edge(imports, u, w);
                assert(s.contains(u));
            }
        }
    }
}

/// Reachability adds nothing beyond what the seeds and their imports force:
/// any set of files that holds every entry point, implicitly used file and
/// tool config, and everything its members import, holds every reachable
/// file; likewise for production reachability (seeds that are no tests) and
/// test reachability (seeds that are tests).
pub proof fn law_reach_is_least(r: Reach, g: Graph, s: Set<int>, only_tests: Option<bool>)
    requires
        g.wf(),
        r.of(&g),
        forall|v: int| 0 <= v < g.files@.len()
            && (g.files@[v].is_entry || g.files@[v].is_implicit_used || g.files@[v].role is Config)
            && (only_tests matches Some(t) ==> g.files@[v].is_test == t) ==> #[trigger] s.contains(v),
        forall|u: int, k: int| 0 <= u < g.imports@.len() && 0 <= k < g.imports@[u]@.len() && s.contains(u)
            ==> s.contains(#[trigger] g.imports@[u]@[k] as int),
    ensures
        forall|v: int| 0 <= v < g.files@.len() && #[trigger] r.reachable@[v] && only_tests is None ==> s.contains(v),
        forall|v: int| 0 <= v < g.files@.len() && #[trigger] r.prod_reachable@[v] && only_tests == Some(false) ==> s.contains(v),
        forall|v: int| 0 <= v < g.files@.len() && #[trigger] r.test_reachable@[v] && only_tests == Some(true) ==> s.contains(v),
{
    let imports = g.imports@;
    let files = g.files@;
    assert forall|u: int, w: int| s.contains(u) && #[trigger] edge(imports, u, w) implies #[trigger] s.contains(w) by {
        let k = choose|k: int| 0 <= k < imports[u]@.len() && #[trigger] imports[u]@[k] as int == w;
        assert(s.contains(imports[u]@[k] as int));
    }
    let seed = match only_tests {
        None => any_seed(files),
        Some(t) => if t { test_seed(files) } else { prod_seed(files) },
    };
    assert forall|v: int| 0 <= v < imports.len() && #[trigger] seed(v) implies s.contains(v) by {
        assert(0 <= v < files.len());
    }
    assert forall|v: int| 0 <= v < files.len() && reachable(imports, seed, v) implies s.contains(v) by {
        let k = choose|k: nat| #[trigger] reach_set(imports, seed, k).contains(v);
        lemma_reach_within(imports, seed, s, k);
    }
}

} // verus!
