use std::collections::HashMap;

use vstd::prelude::*;

use crate::dag::{Expr, ExprGraph};

verus! {

/// Adjacency lists of a graph whose nodes are `0..adj.len()`. `adj[i]` lists
/// the successors of node `i`.
pub open spec fn is_index_dag(adj: Seq<Seq<usize>>) -> bool {
    forall|i: int, k: int| 0 <= i < adj.len() && 0 <= k < adj[i].len() ==> #[trigger] adj[i][k] < i
}

/// There is an edge from node `a` to node `b`.
pub open spec fn is_edge(adj: Seq<Seq<usize>>, a: int, b: int) -> bool {
    0 <= a < adj.len() && exists|k: int| 0 <= k < adj[a].len() && #[trigger] adj[a][k] as int == b
}

/// The `i`-th step of `p` follows an edge.
pub open spec fn step_ok(adj: Seq<Seq<usize>>, p: Seq<int>, i: int) -> bool {
    is_edge(adj, p[i], p[i + 1])
}

/// `p` is a nonempty sequence of nodes, each joined to the next by an edge.
pub open spec fn is_path(adj: Seq<Seq<usize>>, p: Seq<int>) -> bool {
    &&& p.len() >= 1
    &&& 0 <= p[0]
    &&& forall|i: int| 0 <= i < p.len() - 1 ==> #[trigger] step_ok(adj, p, i)
}

/// Node `to` can be reached from node `from` by following edges.
pub open spec fn reaches(adj: Seq<Seq<usize>>, from: int, to: int) -> bool {
    exists|p: Seq<int>| #[trigger] is_path(adj, p) && p[0] == from && p.last() == to
}

/// Every node reaches itself.
pub proof fn lemma_reaches_refl(adj: Seq<Seq<usize>>, x: int)
    requires
        0 <= x,
    ensures
        reaches(adj, x, x),
{
    let p = seq![x];
    assert(is_path(adj, p));
}

/// An edge followed by a path is a path.
pub proof fn lemma_reaches_step(adj: Seq<Seq<usize>>, x: int, k: int, z: int)
    requires
        0 <= x < adj.len(),
        0 <= k < adj[x].len(),
        reaches(adj, adj[x][k] as int, z),
    ensures
        reaches(adj, x, z),
{
    let y = adj[x][k] as int;
    let p = choose|p: Seq<int>| #[trigger] is_path(adj, p) && p[0] == y && p.last() == z;
    let q = seq![x] + p;
    assert(is_edge(adj, x, y));
    assert forall|i: int| 0 <= i < q.len() - 1 implies #[trigger] step_ok(adj, q, i) by {
        if i > 0 {
            assert(step_ok(adj, p, i - 1));
            assert(q[i] == p[i - 1] && q[i + 1] == p[i]);
        }
    }
    assert(is_path(adj, q));
    assert(q.last() == z);
}

/// A path from `x` to another node leaves `x` through one of its edges.
pub proof fn lemma_reaches_split(adj: Seq<Seq<usize>>, x: int, z: int) -> (k: int)
    requires
        reaches(adj, x, z),
        x != z,
    ensures
        0 <= x < adj.len(),
        0 <= k < adj[x].len(),
        reaches(adj, adj[x][k] as int, z),
{
    let p = choose|p: Seq<int>| #[trigger] is_path(adj, p) && p[0] == x && p.last() == z;
    assert(p.len() >= 2);
    assert(step_ok(adj, p, 0));
    let k = choose|k: int| 0 <= k < adj[x].len() && #[trigger] adj[x][k] as int == p[1];
    let q = p.drop_first();
    assert(q[0] == p[1]);
    assert(q.last() == z);
    assert forall|i: int| 0 <= i < q.len() - 1 implies #[trigger] step_ok(adj, q, i) by {
        assert(step_ok(adj, p, i + 1));
    }
    assert(is_path(adj, q));
    k
}

/// In an index graph, a node reaches only nodes no larger than itself.
pub proof fn lemma_reaches_bounds(adj: Seq<Seq<usize>>, from: int, to: int)
    requires
        is_index_dag(adj),
        reaches(adj, from, to),
    ensures
        0 <= to <= from,
    decreases from,
{
    let p = choose|p: Seq<int>| #[trigger] is_path(adj, p) && p[0] == from && p.last() == to;
    if from != to {
        let k = lemma_reaches_split(adj, from, to);
        assert(adj[from][k] < from);
        lemma_reaches_bounds(adj, adj[from][k] as int, to);
    }
}

/// The `k`-th successor of `out[i]` stands before position `i` in `out`.
pub open spec fn succ_before(adj: Seq<Seq<usize>>, out: Seq<usize>, i: int, k: int) -> bool {
    exists|j: int| 0 <= j < i && out[j] == adj[out[i] as int][k]
}

/// The state of a depth-first traversal: `mark` flags exactly the nodes of
/// `out`, `out` holds no node twice, and every successor of a node of `out`
/// stands before it in `out`.
pub open spec fn dfs_state(adj: Seq<Seq<usize>>, mark: Seq<bool>, out: Seq<usize>) -> bool {
    &&& adj.len() <= usize::MAX
    &&& mark.len() == adj.len()
    &&& forall|i: int| 0 <= i < out.len() ==> #[trigger] out[i] < adj.len() && mark[out[i] as int]
    &&& forall|x: int| 0 <= x < adj.len() && #[trigger] mark[x] ==> out.contains(x as usize)
    &&& forall|i: int, j: int| 0 <= i < j < out.len() ==> out[i] != out[j]
    &&& forall|i: int, k: int|
        0 <= i < out.len() && 0 <= k < adj[out[i] as int].len() ==> #[trigger] succ_before(
            adj,
            out,
            i,
            k,
        )
}

/// In a traversal state, the marked nodes are closed under reachability.
pub proof fn lemma_marked_closed(
    adj: Seq<Seq<usize>>,
    mark: Seq<bool>,
    out: Seq<usize>,
    x: int,
    y: int,
)
    requires
        is_index_dag(adj),
        dfs_state(adj, mark, out),
        0 <= x < adj.len(),
        mark[x],
        reaches(adj, x, y),
    ensures
        0 <= y < adj.len(),
        mark[y],
    decreases x,
{
    if x != y {
        let k = lemma_reaches_split(adj, x, y);
        assert(out.contains(x as usize));
        let i = choose|i: int| 0 <= i < out.len() && out[i] == x as usize;
        assert(out[i] as int == x);
        assert(0 <= k < adj[out[i] as int].len());
        assert(succ_before(adj, out, i, k));
        let j = choose|j: int| 0 <= j < i && out[j] == adj[out[i] as int][k];
        assert(mark[out[j] as int]);
        lemma_marked_closed(adj, mark, out, adj[x][k] as int, y);
    }
}

/// A depth-first visit of `node` from the traversal state `(mark, out)`:
/// nothing happens if `node` is marked; otherwise its successors are
/// visited in order, then `node` is marked and appended to `out`.
pub open spec fn dfs_visit(adj: Seq<Seq<usize>>, node: nat, mark: Seq<bool>, out: Seq<usize>) -> (Seq<bool>, Seq<usize>)
    decreases node, 1nat, 0nat,
{
    if node >= adj.len() || node >= mark.len() || mark[node as int] {
        (mark, out)
    } else {
        let (m, o) = dfs_visit_succs(adj, node, adj[node as int].len(), mark, out);
        (m.update(node as int, true), o.push(node as usize))
    }
}

/// The depth-first visits of the first `k` successors of `node`, in order,
/// from the traversal state `(mark, out)`.
pub open spec fn dfs_visit_succs(
    adj: Seq<Seq<usize>>,
    node: nat,
    k: nat,
    mark: Seq<bool>,
    out: Seq<usize>,
) -> (Seq<bool>, Seq<usize>)
    decreases node, 0nat, k,
{
    if k == 0 {
        (mark, out)
    } else {
        let (m, o) = dfs_visit_succs(adj, node, (k - 1) as nat, mark, out);
        let p = adj[node as int][k - 1];
        if p < node {
            dfs_visit(adj, p as nat, m, o)
        } else {
            (m, o)
        }
    }
}

/// The traversal state after visiting the first `i` of `roots` in order,
/// starting with nothing marked.
pub open spec fn dfs_from(adj: Seq<Seq<usize>>, roots: Seq<usize>, i: int) -> (Seq<bool>, Seq<usize>)
    decreases i,
{
    if i <= 0 {
        (Seq::new(adj.len(), |x: int| false), Seq::empty())
    } else {
        let (m, o) = dfs_from(adj, roots, i - 1);
        dfs_visit(adj, roots[i - 1] as nat, m, o)
    }
}

/// The depth-first postorder of the nodes reachable from `roots`, visiting
/// the roots in order and each node's successors in order.
pub open spec fn dfs_order(adj: Seq<Seq<usize>>, roots: Seq<usize>) -> Seq<usize> {
    dfs_from(adj, roots, roots.len() as int).1
}

fn visit(adj: &Vec<Vec<usize>>, node: usize, mark: &mut Vec<bool>, out: &mut Vec<usize>)
    requires
        is_index_dag(adj.deep_view()),
        node < adj.len(),
        dfs_state(adj.deep_view(), old(mark)@, old(out)@),
    ensures
        dfs_state(adj.deep_view(), final(mark)@, final(out)@),
        forall|x: int|
            0 <= x < adj.len() ==> (#[trigger] final(mark)@[x] <==> (old(mark)@[x] || reaches(
                adj.deep_view(),
                node as int,
                x,
            ))),
        (final(mark)@, final(out)@) == dfs_visit(adj.deep_view(), node as nat, old(mark)@, old(out)@),
    decreases node,
{
    let ghost g = adj.deep_view();
    if mark[node] {
        proof {
            assert forall|x: int| 0 <= x < adj.len() && reaches(g, node as int, x) implies mark@[x] by {
                lemma_marked_closed(g, mark@, out@, node as int, x);
            }
        }
        return;
    }
    let ghost mark0 = mark@;
    let ghost outs0 = out@;
    let preds = &adj[node];
    assert(preds@ == g[node as int]);
    let mut k: usize = 0;
    while k < preds.len()
        invariant
            is_index_dag(g),
            g == adj.deep_view(),
            node < adj.len(),
            preds@ == g[node as int],
            0 <= k <= preds.len(),
            dfs_state(g, mark@, out@),
            !mark@[node as int],
            forall|j: int| 0 <= j < k ==> mark@[#[trigger] preds@[j] as int],
            forall|x: int|
                0 <= x < adj.len() ==> (#[trigger] mark@[x] <==> (mark0[x] || exists|j: int|
                    0 <= j < k && #[trigger] reaches(g, preds@[j] as int, x))),
            (mark@, out@) == dfs_visit_succs(g, node as nat, k as nat, mark0, outs0),
        decreases preds.len() - k,
    {
        let p = preds[k];
        assert(p < node);
        let ghost mark1 = mark@;
        visit(adj, p, mark, out);
        proof {
            lemma_reaches_refl(g, p as int);
            assert forall|x: int| 0 <= x < adj.len() implies (#[trigger] mark@[x] <==> (mark0[x]
                || exists|j: int| 0 <= j < k + 1 && #[trigger] reaches(g, preds@[j] as int, x))) by {
                if reaches(g, p as int, x) {
                    assert(reaches(g, preds@[k as int] as int, x));
                }
                if exists|j: int| 0 <= j < k + 1 && #[trigger] reaches(g, preds@[j] as int, x) {
                    let j = choose|j: int| 0 <= j < k + 1 && #[trigger] reaches(g, preds@[j] as int, x);
                    if j == k {
                    } else {
                        assert(mark1[x]);
                    }
                }
            }
            if reaches(g, p as int, node as int) {
                lemma_reaches_bounds(g, p as int, node as int);
            }
        }
        k = k + 1;
    }
    let ghost out0 = out@;
    let ghost mark2 = mark@;
    mark.set(node, true);
    out.push(node);
    proof {
        assert((mark@, out@) == dfs_visit(g, node as nat, mark0, outs0));
        let out1 = out@;
        assert(out1 == out0.push(node));
        assert(!out0.contains(node));
        assert forall|x: int| 0 <= x < adj.len() && #[trigger] mark@[x] implies out1.contains(
            x as usize,
        ) by {
            if x != node {
                assert(mark2[x]);
                let i = choose|i: int| 0 <= i < out0.len() && out0[i] == x as usize;
                assert(out1[i] == x as usize);
            } else {
                assert(out1[out0.len() as int] == node);
            }
        }
        assert forall|i: int, kk: int|
            0 <= i < out1.len() && 0 <= kk < g[out1[i] as int].len() implies #[trigger] succ_before(
            g,
            out1,
            i,
            kk,
        ) by {
            if i < out0.len() {
                assert(out1[i] == out0[i]);
                assert(0 <= kk < g[out0[i] as int].len());
                assert(succ_before(g, out0, i, kk));
                let j = choose|j: int| 0 <= j < i && out0[j] == g[out0[i] as int][kk];
                assert(out1[j] == out0[j]);
            } else {
                let p = preds@[kk];
                assert(mark2[p as int]);
                assert(out0.contains(p));
                let j = choose|j: int| 0 <= j < out0.len() && out0[j] == p;
                assert(out1[j] == out0[j]);
            }
        }
        assert forall|x: int| 0 <= x < adj.len() implies (#[trigger] mark@[x] <==> (mark0[x]
            || reaches(g, node as int, x))) by {
            if x != node && reaches(g, node as int, x) {
                let kk = lemma_reaches_split(g, node as int, x);
                assert(reaches(g, preds@[kk] as int, x));
            }
            if x != node && mark2[x] && !mark0[x] {
                let j = choose|j: int| 0 <= j < preds@.len() && #[trigger] reaches(g, preds@[j] as int, x);
                lemma_reaches_step(g, node as int, j, x);
            }
            if x == node {
                lemma_reaches_refl(g, x);
            }
        }
    }
}

/// Nodes reachable from `roots`, each once, every node after all of its
/// successors (depth-first postorder).
pub fn dfs_postorder(adj: &Vec<Vec<usize>>, roots: &Vec<usize>) -> (out: Vec<usize>)
    requires
        is_index_dag(adj.deep_view()),
        forall|i: int| 0 <= i < roots.len() ==> #[trigger] roots[i] < adj.len(),
    ensures
        forall|i: int, j: int| 0 <= i < j < out.len() ==> out@[i] != out@[j],
        forall|i: int| 0 <= i < out.len() ==> #[trigger] out@[i] < adj.len(),
        forall|x: int|
            0 <= x < adj.len() ==> (#[trigger] out@.contains(x as usize) <==> exists|r: int|
                0 <= r < roots.len() && #[trigger] reaches(adj.deep_view(), roots[r] as int, x)),
        forall|i: int, k: int|
            0 <= i < out.len() && 0 <= k < adj.deep_view()[out@[i] as int].len()
                ==> #[trigger] succ_before(adj.deep_view(), out@, i, k),
        out@ == dfs_order(adj.deep_view(), roots@),
{
    let ghost g = adj.deep_view();
    let mut mark: Vec<bool> = Vec::new();
    let mut n: usize = 0;
    while n < adj.len()
        invariant
            n <= adj.len(),
            mark.len() == n,
            forall|x: int| 0 <= x < n ==> !#[trigger] mark@[x],
        decreases adj.len() - n,
    {
        mark.push(false);
        n = n + 1;
    }
    let mut out: Vec<usize> = Vec::new();
    assert(mark@ =~= Seq::new(adj.len() as nat, |x: int| false));
    assert(out@ =~= Seq::<usize>::empty());
    let mut i: usize = 0;
    while i < roots.len()
        invariant
            (mark@, out@) == dfs_from(g, roots@, i as int),
            g == adj.deep_view(),
            is_index_dag(g),
            forall|i: int| 0 <= i < roots.len() ==> #[trigger] roots[i] < adj.len(),
            i <= roots.len(),
            dfs_state(g, mark@, out@),
            forall|x: int|
                0 <= x < adj.len() ==> (#[trigger] mark@[x] <==> exists|r: int|
                    0 <= r < i && #[trigger] reaches(g, roots[r] as int, x)),
        decreases roots.len() - i,
    {
        let ghost mark0 = mark@;
        visit(adj, roots[i], &mut mark, &mut out);
        proof {
            assert forall|x: int| 0 <= x < adj.len() implies (#[trigger] mark@[x] <==> exists|r: int|
                0 <= r < i + 1 && #[trigger] reaches(g, roots[r] as int, x)) by {
                if reaches(g, roots[i as int] as int, x) {
                    assert(0 <= i < i + 1);
                }
                if exists|r: int| 0 <= r < i + 1 && #[trigger] reaches(g, roots[r] as int, x) {
                    let r = choose|r: int| 0 <= r < i + 1 && #[trigger] reaches(g, roots[r] as int, x);
                    if r < i {
                        assert(mark0[x]);
                    }
                }
            }
        }
        i = i + 1;
    }
    proof {
        assert forall|x: int| 0 <= x < adj.len() implies (#[trigger] out@.contains(x as usize) <==> exists|r: int|
            0 <= r < roots.len() && #[trigger] reaches(g, roots[r] as int, x)) by {
            if out@.contains(x as usize) {
                let j = choose|j: int| 0 <= j < out.len() && out@[j] == x as usize;
                assert(mark@[out@[j] as int]);
            }
            if mark@[x] {
            }
        }
    }
    out
}

} // verus!

verus! {

/// The operand edges of `graph`, node by node.
pub open spec fn pred_adj(graph: &ExprGraph) -> Seq<Seq<usize>> {
    Seq::new(graph.nodes().len(), |i: int| graph.nodes()[i].preds())
}

/// The dependency edges of `graph` (operands and called functions' results),
/// node by node.
pub open spec fn dep_adj(graph: &ExprGraph) -> Seq<Seq<usize>> {
    Seq::new(graph.nodes().len(), |i: int| graph.nodes()[i].deps())
}

/// The operand edges of a well-formed graph lead to earlier nodes.
pub proof fn lemma_pred_adj_dag(graph: &ExprGraph)
    requires
        graph.wf(),
    ensures
        is_index_dag(pred_adj(graph)),
        is_index_dag(dep_adj(graph)),
{
    let a = pred_adj(graph);
    let d = dep_adj(graph);
    assert forall|i: int, k: int| 0 <= i < a.len() && 0 <= k < a[i].len() implies #[trigger] a[i][k] < i by {
        let e = graph.nodes()[i];
        assert(e.deps_below(i));
        match e {
            Expr::CallFuncDef { def, args } => {
                assert(e.deps()[k] == args@[k]);
            },
            _ => {
                assert(e.deps()[k] == e.preds()[k]);
            },
        }
    }
    assert forall|i: int, k: int| 0 <= i < d.len() && 0 <= k < d[i].len() implies #[trigger] d[i][k] < i by {
        assert(graph.nodes()[i].deps_below(i));
    }
}

/// The operand lists of all nodes.
fn operand_lists(graph: &ExprGraph) -> (adj: Vec<Vec<usize>>)
    ensures
        adj.len() == graph.nodes().len(),
        adj.deep_view() == pred_adj(graph),
{
    let mut adj: Vec<Vec<usize>> = Vec::new();
    let n = graph.len();
    let mut i: usize = 0;
    while i < n
        invariant
            n == graph.nodes().len(),
            i <= n,
            adj.len() == i,
            forall|j: int| 0 <= j < i ==> (#[trigger] adj@[j])@ == graph.nodes()[j].preds(),
        decreases n - i,
    {
        adj.push(graph.node(i).predecessors());
        i = i + 1;
    }
    proof {
        assert forall|j: int| 0 <= j < adj.len() implies #[trigger] adj.deep_view()[j] == pred_adj(graph)[j] by {
            assert(adj.deep_view()[j] == adj@[j].deep_view());
            assert(adj@[j].deep_view() =~= adj@[j]@);
        }
        assert(adj.deep_view() =~= pred_adj(graph));
    }
    adj
}

/// The dependency lists of all nodes.
pub fn dependency_lists(graph: &ExprGraph) -> (adj: Vec<Vec<usize>>)
    ensures
        adj.len() == graph.nodes().len(),
        adj.deep_view() == dep_adj(graph),
{
    let mut adj: Vec<Vec<usize>> = Vec::new();
    let n = graph.len();
    let mut i: usize = 0;
    while i < n
        invariant
            n == graph.nodes().len(),
            i <= n,
            adj.len() == i,
            forall|j: int| 0 <= j < i ==> (#[trigger] adj@[j])@ == graph.nodes()[j].deps(),
        decreases n - i,
    {
        adj.push(graph.node(i).dependencies());
        i = i + 1;
    }
    proof {
        assert forall|j: int| 0 <= j < adj.len() implies #[trigger] adj.deep_view()[j] == dep_adj(graph)[j] by {
            assert(adj.deep_view()[j] == adj@[j].deep_view());
            assert(adj@[j].deep_view() =~= adj@[j]@);
        }
        assert(adj.deep_view() =~= dep_adj(graph));
    }
    adj
}

/// The nodes reachable from `roots` through operands, each once, every node
/// after all of its operands.
pub fn topological_order(graph: &ExprGraph, roots: &Vec<usize>) -> (out: Vec<usize>)
    requires
        graph.wf(),
        forall|i: int| 0 <= i < roots.len() ==> #[trigger] roots[i] < graph.nodes().len(),
    ensures
        forall|i: int, j: int| 0 <= i < j < out.len() ==> out@[i] != out@[j],
        forall|i: int| 0 <= i < out.len() ==> #[trigger] out@[i] < graph.nodes().len(),
        forall|x: int|
            0 <= x < graph.nodes().len() ==> (#[trigger] out@.contains(x as usize) <==> exists|r: int|
                0 <= r < roots.len() && #[trigger] reaches(pred_adj(graph), roots[r] as int, x)),
        forall|i: int, k: int|
            0 <= i < out.len() && 0 <= k < pred_adj(graph)[out@[i] as int].len()
                ==> #[trigger] succ_before(pred_adj(graph), out@, i, k),
        out@ == dfs_order(pred_adj(graph), roots@),
{
    proof {
        lemma_pred_adj_dag(graph);
    }
    let adj = operand_lists(graph);
    dfs_postorder(&adj, roots)
}

/// Numbers the nodes reachable from `roots` so that every node comes before
/// all of its operands.
///
/// The result maps exactly the reachable nodes to distinct positions
/// `0..count`: each node to its position in the reversed depth-first
/// postorder.
pub fn topological_ordering(graph: &ExprGraph, roots: &Vec<usize>) -> (m: HashMap<usize, usize>)
    requires
        graph.wf(),
        forall|i: int| 0 <= i < roots.len() ==> #[trigger] roots[i] < graph.nodes().len(),
    ensures
        forall|x: usize|
            #[trigger] m@.contains_key(x) <==> (x < graph.nodes().len() && exists|r: int|
                0 <= r < roots.len() && #[trigger] reaches(pred_adj(graph), roots[r] as int, x as int)),
        forall|x: usize| #[trigger] m@.contains_key(x) ==> m@[x] < m@.dom().len(),
        forall|x: usize, y: usize|
            #[trigger] m@.contains_key(x) && #[trigger] m@.contains_key(y) && x != y ==> m@[x] != m@[y],
        forall|u: usize, k: int|
            #[trigger] m@.contains_key(u) && 0 <= k < graph.nodes()[u as int].preds().len() ==> m@[u]
                < m@[#[trigger] graph.nodes()[u as int].preds()[k]],
        forall|j: int|
            0 <= j < dfs_order(pred_adj(graph), roots@).len() ==> m@[#[trigger] dfs_order(
                pred_adj(graph),
                roots@,
            )[j]] == dfs_order(pred_adj(graph), roots@).len() - 1 - j,
{
    broadcast use vstd::std_specs::hash::group_hash_axioms;

    let out = topological_order(graph, roots);
    let n = out.len();
    let mut m: HashMap<usize, usize> = HashMap::new();
    let mut i: usize = 0;
    while i < n
        invariant
            n == out.len(),
            i <= n,
            forall|a: int, b: int| 0 <= a < b < out.len() ==> out@[a] != out@[b],
            m@.dom().finite(),
            m@.dom().len() == i,
            forall|x: usize|
                #[trigger] m@.contains_key(x) <==> exists|j: int| n - i <= j < n && out@[j] == x,
            forall|j: int| n - i <= j < n ==> #[trigger] m@.contains_key(out@[j]) && m@[out@[j]] == n - 1 - j,
        decreases n - i,
    {
        let key = out[n - 1 - i];
        proof {
            assert forall|j: int| n - i <= j < n implies out@[j] != key by {
                assert(out@[n - 1 - i] == key);
            }
        }
        m.insert(key, i);
        i = i + 1;
    }
    proof {
        assert forall|x: usize|
            #[trigger] m@.contains_key(x) <==> (x < graph.nodes().len() && exists|r: int|
                0 <= r < roots.len() && #[trigger] reaches(pred_adj(graph), roots[r] as int, x as int)) by {
            let xi = x as int;
            if m@.contains_key(x) {
                let j = choose|j: int| 0 <= j < n && out@[j] == x;
                assert(out@[j] < graph.nodes().len());
                assert(out@.contains(xi as usize));
            }
            if x < graph.nodes().len() && exists|r: int|
                0 <= r < roots.len() && #[trigger] reaches(pred_adj(graph), roots[r] as int, x as int) {
                assert(out@.contains(xi as usize));
                let j = choose|j: int| 0 <= j < n && out@[j] == x;
                assert(m@.contains_key(out@[j]));
            }
        }
        assert forall|x: usize| #[trigger] m@.contains_key(x) implies m@[x] < m@.dom().len() by {
            let j = choose|j: int| 0 <= j < n && out@[j] == x;
            assert(m@.contains_key(out@[j]));
        }
        assert forall|x: usize, y: usize|
            #[trigger] m@.contains_key(x) && #[trigger] m@.contains_key(y) && x != y implies m@[x] != m@[y] by {
            let a = choose|j: int| 0 <= j < n && out@[j] == x;
            let b = choose|j: int| 0 <= j < n && out@[j] == y;
            assert(m@.contains_key(out@[a]));
            assert(m@.contains_key(out@[b]));
        }
        assert forall|u: usize, k: int|
            #[trigger] m@.contains_key(u) && 0 <= k < graph.nodes()[u as int].preds().len() implies m@[u]
                < m@[#[trigger] graph.nodes()[u as int].preds()[k]] by {
            let a = choose|j: int| 0 <= j < n && out@[j] == u;
            assert(m@.contains_key(out@[a]));
            assert(pred_adj(graph)[out@[a] as int] == graph.nodes()[u as int].preds());
            assert(succ_before(pred_adj(graph), out@, a, k));
            let b = choose|j: int| 0 <= j < a && out@[j] == pred_adj(graph)[out@[a] as int][k];
            assert(m@.contains_key(out@[b]));
        }
        assert forall|j: int| 0 <= j < out@.len() implies m@[#[trigger] out@[j]] == out@.len() - 1 - j by {
            assert(m@.contains_key(out@[j]));
        }
    }
    m
}

} // verus!
