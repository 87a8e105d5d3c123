use vstd::prelude::*;

use crate::dag::{Expr, ExprGraph, Type};

use super::simplified_expr::{
    args_refs_below, lemma_list_view, list_view, var_refs_below, ExprView, SimplifiedExpr, VarId,
};
use super::struct_registry::StructRegistry;
use super::topo::{dfs_order, pred_adj, reaches, succ_before, topological_order};

verus! {

/// Node `x` is reachable from one of `roots` through operands.
pub open spec fn reachable(graph: &ExprGraph, roots: Seq<usize>, x: int) -> bool {
    exists|r: int| 0 <= r < roots.len() && #[trigger] reaches(pred_adj(graph), roots[r] as int, x)
}

/// How often `x` occurs in `s`.
pub open spec fn count_in(s: Seq<usize>, x: int) -> nat
    decreases s.len(),
{
    if s.len() == 0 {
        0
    } else {
        count_in(s.drop_last(), x) + if s.last() == x {
            1nat
        } else {
            0nat
        }
    }
}

/// How often `x` is an operand of the reachable nodes below `n`.
pub open spec fn uses_upto(graph: &ExprGraph, roots: Seq<usize>, x: int, n: int) -> nat
    decreases n,
{
    if n <= 0 {
        0
    } else {
        uses_upto(graph, roots, x, n - 1) + if reachable(graph, roots, n - 1) {
            count_in(graph.nodes()[n - 1].preds(), x)
        } else {
            0nat
        }
    }
}

/// How often `x` is an operand of a reachable node.
pub open spec fn uses(graph: &ExprGraph, roots: Seq<usize>, x: int) -> nat {
    uses_upto(graph, roots, x, graph.nodes().len() as int)
}

/// Whether a node used `count` times is given a variable: a conditional
/// always is, an argument or literal never is, and anything else when it is
/// used more than once.
pub open spec fn needs_var_for(count: int, e: Expr) -> bool {
    match e {
        Expr::Branch { .. } => true,
        Expr::Arg { .. } | Expr::ScalarLiteral { .. } => false,
        _ => count > 1,
    }
}

/// Node `x` is given a variable.
pub open spec fn gets_var(graph: &ExprGraph, roots: Seq<usize>, x: int) -> bool {
    reachable(graph, roots, x) && needs_var_for(uses(graph, roots, x) as int, graph.nodes()[x])
}

/// `e` is how node `x` is written when each operand with a variable in
/// `vmap` is replaced by that variable and every other operand is inlined.
pub open spec fn simplifies(
    graph: &ExprGraph,
    reg: &StructRegistry,
    vmap: Seq<Option<VarId>>,
    x: int,
    e: ExprView,
) -> bool
    decreases x, 1int, 0int,
{
    0 <= x < graph.nodes().len() && match graph.nodes()[x] {
        Expr::Arg { name, ty } => e == ExprView::Arg { name: name@, ty },
        Expr::ScalarLiteral { value, ty } => e == ExprView::ScalarLiteral { value: value@, ty },
        Expr::StructLiteral { args, ty } => match e {
            ExprView::CallFunc { name, args: es, ty: t } => name == graph.structs()[ty as int].name@ && t
                == Type::Struct(ty) && refs_ok(graph, reg, vmap, x, args@, es),
            _ => false,
        },
        Expr::Binary { left, op, right, ty } => match e {
            ExprView::Binary { left: l, op: o, right: r, ty: t } => o == op && t == ty && left < x
                && right < x && refers(graph, reg, vmap, left as int, *l) && refers(
                graph,
                reg,
                vmap,
                right as int,
                *r,
            ),
            _ => false,
        },
        Expr::CallFuncDef { def, args } => match e {
            ExprView::CallFunc { name, args: es, ty: t } => name == def.name@ && t == graph.ty_at(
                def.result as int,
            ) && refs_ok(graph, reg, vmap, x, args@, es),
            _ => false,
        },
        Expr::CallBuiltIn { name, args, ty } => match e {
            ExprView::CallFunc { name: n, args: es, ty: t } => n == name@ && t == ty && refs_ok(
                graph,
                reg,
                vmap,
                x,
                args@,
                es,
            ),
            _ => false,
        },
        Expr::Field { base, name, ty } => match e {
            ExprView::Field { base: b, name: n, ty: t } => n == name@ && t == ty && base < x && refers(
                graph,
                reg,
                vmap,
                base as int,
                *b,
            ),
            _ => false,
        },
        Expr::Branch { cond, yes, no, ty } => match e {
            ExprView::Branch { cond: c, yes: y, no: n, ty: t } => t == ty && cond < x && yes < x && no
                < x && refers(graph, reg, vmap, cond as int, *c) && refers(
                graph,
                reg,
                vmap,
                yes as int,
                *y,
            ) && refers(graph, reg, vmap, no as int, *n),
            _ => false,
        },
    }
}

/// `e` is how operand `p` is written: its variable, or its inlined form.
pub open spec fn refers(
    graph: &ExprGraph,
    reg: &StructRegistry,
    vmap: Seq<Option<VarId>>,
    p: int,
    e: ExprView,
) -> bool
    decreases p, 2int, 0int,
{
    0 <= p < vmap.len() && match vmap[p] {
        Some(v) => e == ExprView::Var { id: v, ty: graph.ty_at(p) },
        None => simplifies(graph, reg, vmap, p, e),
    }
}

/// `es` is how the operands `args` of node `x` are written, one by one.
pub open spec fn refs_ok(
    graph: &ExprGraph,
    reg: &StructRegistry,
    vmap: Seq<Option<VarId>>,
    x: int,
    args: Seq<usize>,
    es: Seq<ExprView>,
) -> bool
    decreases x, 0int, args.len(),
{
    if args.len() == 0 {
        es.len() == 0
    } else {
        es.len() == args.len() && args.last() < x && refers(
            graph,
            reg,
            vmap,
            args.last() as int,
            es.last(),
        ) && refs_ok(graph, reg, vmap, x, args.drop_last(), es.drop_last())
    }
}

/// Operand `p` can be written: it has a variable, or its inlined form is
/// known.
pub open spec fn ready(
    graph: &ExprGraph,
    reg: &StructRegistry,
    vmap: Seq<Option<VarId>>,
    smap: Seq<Option<SimplifiedExpr>>,
    p: int,
) -> bool {
    &&& 0 <= p < vmap.len()
    &&& p < smap.len()
    &&& vmap[p] is None ==> (smap[p] matches Some(e) && simplifies(graph, reg, vmap, p, e@))
}

/// Every struct literal among the reachable nodes has a registered struct.
pub open spec fn registry_covers(reg: &StructRegistry, graph: &ExprGraph, roots: Seq<usize>) -> bool {
    forall|x: int|
        0 <= x < graph.nodes().len() && reachable(graph, roots, x) && (#[trigger] graph.nodes()[x] is StructLiteral)
            ==> reg.position(graph.nodes()[x]->StructLiteral_ty) is Some
}

/// How operand `p` is written.
fn map_pred(
    graph: &ExprGraph,
    reg: &StructRegistry,
    vars: &Vec<Option<VarId>>,
    simple: &Vec<Option<SimplifiedExpr>>,
    p: usize,
) -> (r: SimplifiedExpr)
    requires
        graph.wf(),
        vars.len() == graph.nodes().len(),
        ready(graph, reg, vars@, simple@, p as int),
    ensures
        refers(graph, reg, vars@, p as int, r@),
{
    match vars[p] {
        Some(v) => SimplifiedExpr::Var { id: v, ty: graph.ty_of(p) },
        None => match &simple[p] {
            Some(e) => e.clone(),
            None => {
                assert(false);
                SimplifiedExpr::Var { id: VarId(0), ty: graph.ty_of(p) }
            },
        },
    }
}

/// How the operands `args` of node `x` are written.
fn map_preds(
    graph: &ExprGraph,
    reg: &StructRegistry,
    vars: &Vec<Option<VarId>>,
    simple: &Vec<Option<SimplifiedExpr>>,
    x: usize,
    args: &Vec<usize>,
) -> (r: Vec<SimplifiedExpr>)
    requires
        graph.wf(),
        vars.len() == graph.nodes().len(),
        forall|k: int| 0 <= k < args.len() ==> #[trigger] args@[k] < x,
        forall|k: int| 0 <= k < args.len() ==> ready(graph, reg, vars@, simple@, #[trigger] args@[k] as int),
    ensures
        refs_ok(graph, reg, vars@, x as int, args@, list_view(r@)),
{
    let mut r: Vec<SimplifiedExpr> = Vec::new();
    let mut i: usize = 0;
    while i < args.len()
        invariant
            graph.wf(),
            vars.len() == graph.nodes().len(),
            forall|k: int| 0 <= k < args.len() ==> #[trigger] args@[k] < x,
            forall|k: int| 0 <= k < args.len() ==> ready(graph, reg, vars@, simple@, #[trigger] args@[k] as int),
            i <= args.len(),
            r.len() == i,
            refs_ok(graph, reg, vars@, x as int, args@.take(i as int), list_view(r@)),
        decreases args.len() - i,
    {
        let e = map_pred(graph, reg, vars, simple, args[i]);
        let ghost r0 = r@;
        r.push(e);
        proof {
            lemma_list_view(r0);
            lemma_list_view(r@);
            assert(r@.drop_last() == r0);
            let t = args@.take(i + 1);
            assert(t.drop_last() == args@.take(i as int));
            assert(t.last() == args@[i as int]);
            assert(list_view(r@).drop_last() == list_view(r0));
            assert(list_view(r@).last() == e@);
        }
        i = i + 1;
    }
    assert(args@.take(args.len() as int) == args@);
    r
}

/// How node `x` is written, given how its operands are written.
fn map_expr(
    graph: &ExprGraph,
    reg: &StructRegistry,
    vars: &Vec<Option<VarId>>,
    simple: &Vec<Option<SimplifiedExpr>>,
    x: usize,
) -> (r: SimplifiedExpr)
    requires
        graph.wf(),
        reg.wf(graph),
        x < graph.nodes().len(),
        vars.len() == graph.nodes().len(),
        forall|k: int|
            0 <= k < graph.nodes()[x as int].preds().len() ==> ready(
                graph,
                reg,
                vars@,
                simple@,
                #[trigger] graph.nodes()[x as int].preds()[k] as int,
            ),
        graph.nodes()[x as int] is StructLiteral ==> reg.position(
            graph.nodes()[x as int]->StructLiteral_ty,
        ) is Some,
    ensures
        simplifies(graph, reg, vars@, x as int, r@),
{
    let node = graph.node(x);
    let ghost ps = node.preds();
    assert(node.deps_below(x as int));
    assert forall|k: int| 0 <= k < ps.len() implies #[trigger] ps[k] < x by {
        match *node {
            Expr::CallFuncDef { def, args } => {
                assert(node.deps()[k] == args@[k]);
            },
            _ => {
                assert(node.deps()[k] == ps[k]);
            },
        }
    }
    match node {
        Expr::Arg { name, ty } => SimplifiedExpr::Arg { name: name.clone(), ty: ty.clone() },
        Expr::ScalarLiteral { value, ty } => SimplifiedExpr::ScalarLiteral {
            value: value.clone(),
            ty: *ty,
        },
        Expr::StructLiteral { args, ty } => {
            assert(*ty < graph.structs().len()) by {
                assert(node.types_below(graph.structs().len() as int));
            }
            let a = map_preds(graph, reg, vars, simple, x, args);
            SimplifiedExpr::CallFunc { name: graph.struct_type(*ty).name.clone(), args: a, ty: Type::Struct(*ty) }
        },
        Expr::Binary { left, op, right, ty } => {
            assert(ps[0] == *left && ps[1] == *right);
            let l = map_pred(graph, reg, vars, simple, *left);
            let r = map_pred(graph, reg, vars, simple, *right);
            SimplifiedExpr::Binary { left: Box::new(l), op: *op, right: Box::new(r), ty: ty.clone() }
        },
        Expr::CallFuncDef { def, args } => {
            let ghost d = node.deps();
            assert(d[d.len() - 1] == def.result);
            let a = map_preds(graph, reg, vars, simple, x, args);
            SimplifiedExpr::CallFunc { name: def.name.clone(), args: a, ty: graph.ty_of(def.result) }
        },
        Expr::CallBuiltIn { name, args, ty } => {
            let a = map_preds(graph, reg, vars, simple, x, args);
            SimplifiedExpr::CallFunc { name: name.clone(), args: a, ty: ty.clone() }
        },
        Expr::Field { base, name, ty } => {
            assert(ps[0] == *base);
            let b = map_pred(graph, reg, vars, simple, *base);
            SimplifiedExpr::Field { base: Box::new(b), name: name.clone(), ty: ty.clone() }
        },
        Expr::Branch { cond, yes, no, ty } => {
            assert(ps[0] == *cond && ps[1] == *yes && ps[2] == *no);
            let c = map_pred(graph, reg, vars, simple, *cond);
            let y = map_pred(graph, reg, vars, simple, *yes);
            let n = map_pred(graph, reg, vars, simple, *no);
            SimplifiedExpr::Branch { cond: Box::new(c), yes: Box::new(y), no: Box::new(n), ty: ty.clone() }
        },
    }
}

} // verus!

verus! {

/// `a`, but no more than 2.
pub open spec fn capped(a: nat) -> nat {
    if a >= 2 {
        2
    } else {
        a
    }
}

/// How often each node is an operand of a reachable node, counted up to 2.
fn count_usages(graph: &ExprGraph, Ghost(roots): Ghost<Seq<usize>>, in_reach: &Vec<bool>) -> (counts: Vec<usize>)
    requires
        graph.wf(),
        in_reach.len() == graph.nodes().len(),
        forall|x: int| 0 <= x < in_reach.len() ==> #[trigger] in_reach@[x] == reachable(graph, roots, x),
    ensures
        counts.len() == graph.nodes().len(),
        forall|y: int| 0 <= y < counts.len() ==> #[trigger] counts@[y] == capped(uses(graph, roots, y)),
{
    let n = graph.len();
    let mut counts: Vec<usize> = Vec::new();
    let mut i: usize = 0;
    while i < n
        invariant
            i <= n,
            counts.len() == i,
            forall|y: int| 0 <= y < i ==> #[trigger] counts@[y] == 0,
        decreases n - i,
    {
        counts.push(0);
        i = i + 1;
    }
    let mut u: usize = 0;
    while u < n
        invariant
            graph.wf(),
            n == graph.nodes().len(),
            in_reach.len() == n,
            forall|x: int| 0 <= x < in_reach.len() ==> #[trigger] in_reach@[x] == reachable(graph, roots, x),
            u <= n,
            counts.len() == n,
            forall|y: int| 0 <= y < n ==> #[trigger] counts@[y] == capped(uses_upto(graph, roots, y, u as int)),
        decreases n - u,
    {
        if in_reach[u] {
            let preds = graph.node(u).predecessors();
            let ghost ps = preds@;
            assert(graph.nodes()[u as int].deps_below(u as int));
            assert forall|q: int| 0 <= q < preds.len() implies #[trigger] preds@[q] < u by {
                let node = graph.nodes()[u as int];
                match node {
                    Expr::CallFuncDef { def, args } => {
                        assert(node.deps()[q] == args@[q]);
                    },
                    _ => {
                        assert(node.deps()[q] == ps[q]);
                    },
                }
            }
            let mut k: usize = 0;
            while k < preds.len()
                invariant
                    graph.wf(),
                    n == graph.nodes().len(),
                    u < n,
                    reachable(graph, roots, u as int),
                    preds@ == graph.nodes()[u as int].preds(),
                    forall|q: int| 0 <= q < preds.len() ==> #[trigger] preds@[q] < u,
                    k <= preds.len(),
                    counts.len() == n,
                    forall|y: int|
                        0 <= y < n ==> #[trigger] counts@[y] == capped(
                            uses_upto(graph, roots, y, u as int) + count_in(preds@.take(k as int), y),
                        ),
                decreases preds.len() - k,
            {
                let p = preds[k];
                let c = counts[p];
                if c < 2 {
                    counts.set(p, c + 1);
                }
                proof {
                    assert forall|y: int| 0 <= y < n implies #[trigger] counts@[y] == capped(
                        uses_upto(graph, roots, y, u as int) + count_in(preds@.take(k + 1), y),
                    ) by {
                        let t = preds@.take(k + 1);
                        assert(t.drop_last() == preds@.take(k as int));
                        assert(t.last() == p);
                    }
                }
                k = k + 1;
            }
            proof {
                assert(preds@.take(preds.len() as int) == preds@);
                assert forall|y: int| 0 <= y < n implies #[trigger] counts@[y] == capped(
                    uses_upto(graph, roots, y, u + 1),
                ) by {
                    assert(uses_upto(graph, roots, y, u + 1) == uses_upto(graph, roots, y, u as int)
                        + count_in(graph.nodes()[u as int].preds(), y));
                }
            }
        } else {
            proof {
                assert forall|y: int| 0 <= y < n implies #[trigger] counts@[y] == capped(
                    uses_upto(graph, roots, y, u + 1),
                ) by {
                    assert(uses_upto(graph, roots, y, u + 1) == uses_upto(graph, roots, y, u as int));
                }
            }
        }
        u = u + 1;
    }
    counts
}

/// Whether a node used `count` times is given a variable.
fn needs_var(count: usize, expr: &Expr) -> (r: bool)
    ensures
        r == needs_var_for(count as int, *expr),
{
    match expr {
        Expr::Branch { .. } => true,
        Expr::Arg { .. } | Expr::ScalarLiteral { .. } => false,
        Expr::StructLiteral { .. }
        | Expr::Binary { .. }
        | Expr::CallFuncDef { .. }
        | Expr::CallBuiltIn { .. }
        | Expr::Field { .. } => count > 1,
    }
}

/// The variable form of the nodes reachable from some roots: the nodes that
/// are used more than once, and all conditionals, become variables; every
/// other node is inlined into its single user.
pub struct VarForm {
    var_exprs: Vec<SimplifiedExpr>,
    var_nodes: Vec<usize>,
    expr_to_var: Vec<Option<VarId>>,
    simplified_exprs: Vec<Option<SimplifiedExpr>>,
    simplified_roots: Vec<SimplifiedExpr>,
}

impl VarForm {
    /// The variable of each node, if it has one.
    pub closed spec fn vars_view(&self) -> Seq<Option<VarId>> {
        self.expr_to_var@
    }

    /// The node of each variable.
    pub closed spec fn var_nodes_view(&self) -> Seq<usize> {
        self.var_nodes@
    }

    /// The definition of each variable.
    pub closed spec fn var_exprs_view(&self) -> Seq<ExprView> {
        list_view(self.var_exprs@)
    }

    /// How each root is written.
    pub closed spec fn roots_view(&self) -> Seq<ExprView> {
        list_view(self.simplified_roots@)
    }

    /// The number of variables.
    pub closed spec fn num_vars(&self) -> nat {
        self.var_exprs@.len()
    }

    /// Every variable refers only to variables numbered below it, and the
    /// roots only to variables that exist.
    pub open spec fn refs_ordered(&self) -> bool {
        &&& self.var_exprs_view().len() == self.num_vars()
        &&& forall|v: int|
            0 <= v < self.num_vars() ==> var_refs_below(#[trigger] self.var_exprs_view()[v], v as nat)
        &&& forall|i: int|
            0 <= i < self.roots_view().len() ==> var_refs_below(#[trigger] self.roots_view()[i], self.num_vars())
    }

    /// The variable form of `graph` for the given roots.
    pub open spec fn is_form_of(&self, graph: &ExprGraph, reg: &StructRegistry, roots: Seq<usize>) -> bool {
        let vmap = self.vars_view();
        &&& vmap.len() == graph.nodes().len()
        &&& forall|x: int| 0 <= x < vmap.len() ==> ((#[trigger] vmap[x] is Some) <==> gets_var(graph, roots, x))
        &&& self.var_nodes_view().len() == self.num_vars()
        &&& self.var_exprs_view().len() == self.num_vars()
        &&& forall|v: int|
            0 <= v < self.num_vars() ==> #[trigger] self.var_nodes_view()[v] < graph.nodes().len() && vmap[
                self.var_nodes_view()[v] as int] == Some(VarId(v as usize))
        &&& forall|x: int|
            0 <= x < vmap.len() ==> (#[trigger] vmap[x] matches Some(w) ==> w.0 < self.num_vars()
                && self.var_nodes_view()[w.0 as int] == x)
        &&& forall|v: int|
            0 <= v < self.num_vars() ==> simplifies(
                graph,
                reg,
                vmap,
                self.var_nodes_view()[v] as int,
                #[trigger] self.var_exprs_view()[v],
            )
        &&& self.roots_view().len() == roots.len()
        &&& forall|i: int|
            0 <= i < roots.len() ==> refers(graph, reg, vmap, roots[i] as int, #[trigger] self.roots_view()[i])
        &&& forall|v: int|
            0 <= v < self.num_vars() ==> var_refs_below(#[trigger] self.var_exprs_view()[v], v as nat)
        &&& forall|i: int| 0 <= i < roots.len() ==> var_refs_below(#[trigger] self.roots_view()[i], self.num_vars())
    }

    /// The variables are numbered from 0 in the depth-first postorder of the
    /// nodes reachable from `roots`.
    pub open spec fn numbered_in_order(&self, graph: &ExprGraph, roots: Seq<usize>) -> bool {
        exists|before: Seq<nat>|
            #![trigger numbering_ok(graph, self.vars_view(), dfs_order(pred_adj(graph), roots), before, self.num_vars())]
            numbering_ok(graph, self.vars_view(), dfs_order(pred_adj(graph), roots), before, self.num_vars())
                && (before.len() > 0 ==> before[0] == 0)
    }

    /// Decides which nodes reachable from `roots` become variables and how
    /// every variable and root is written; the variables are numbered in the
    /// depth-first postorder of the nodes.
    #[verifier::loop_isolation(false)]
    pub fn new(graph: &ExprGraph, reg: &StructRegistry, roots: &Vec<usize>) -> (vf: Self)
        requires
            graph.wf(),
            reg.wf(graph),
            forall|i: int| 0 <= i < roots.len() ==> #[trigger] roots@[i] < graph.nodes().len(),
            registry_covers(reg, graph, roots@),
        ensures
            vf.is_form_of(graph, reg, roots@),
            vf.refs_ordered(),
            vf.numbered_in_order(graph, roots@),
    {
        let n = graph.len();
        let order = topological_order(graph, roots);
        let mut in_reach: Vec<bool> = Vec::new();
        let mut i: usize = 0;
        while i < n
            invariant
                i <= n,
                in_reach.len() == i,
                forall|x: int| 0 <= x < i ==> !#[trigger] in_reach@[x],
            decreases n - i,
        {
            in_reach.push(false);
            i = i + 1;
        }
        let mut j: usize = 0;
        while j < order.len()
            invariant
                n == graph.nodes().len(),
                in_reach.len() == n,
                j <= order.len(),
                forall|a: int| 0 <= a < order.len() ==> #[trigger] order@[a] < n,
                forall|x: int|
                    0 <= x < n ==> (#[trigger] in_reach@[x] <==> exists|a: int| 0 <= a < j && order@[a] == x),
            decreases order.len() - j,
        {
            let ghost r0 = in_reach@;
            in_reach.set(order[j], true);
            proof {
                assert forall|x: int| 0 <= x < n implies (#[trigger] in_reach@[x] <==> exists|a: int|
                    0 <= a < j + 1 && order@[a] == x) by {
                    if x != order@[j as int] && in_reach@[x] {
                        assert(r0[x]);
                    }
                    if exists|a: int| 0 <= a < j + 1 && order@[a] == x {
                        let a = choose|a: int| 0 <= a < j + 1 && order@[a] == x;
                        if a < j {
                            assert(r0[x]);
                        }
                    }
                }
            }
            j = j + 1;
        }
        proof {
            assert forall|x: int| 0 <= x < in_reach.len() implies #[trigger] in_reach@[x] == reachable(
                graph,
                roots@,
                x,
            ) by {
                let xi = x as int;
                if in_reach@[x] {
                    let a = choose|a: int| 0 <= a < order.len() && order@[a] == x;
                    assert(order@.contains((xi as int) as usize));
                }
                if reachable(graph, roots@, x) {
                    assert(order@.contains((xi as int) as usize));
                    let a = choose|a: int| 0 <= a < order.len() && order@[a] == (xi as int) as usize;
                }
            }
        }
        let counts = count_usages(graph, Ghost(roots@), &in_reach);

        // Number the variables in topological order.
        let mut vars: Vec<Option<VarId>> = Vec::new();
        let mut i: usize = 0;
        while i < n
            invariant
                i <= n,
                vars.len() == i,
                forall|x: int| 0 <= x < i ==> #[trigger] vars@[x] is None,
            decreases n - i,
        {
            vars.push(None);
            i = i + 1;
        }
        let mut var_nodes: Vec<usize> = Vec::new();
        let ghost mut before: Seq<nat> = seq![];
        let mut j: usize = 0;
        while j < order.len()
            invariant
                n == graph.nodes().len(),
                counts.len() == n,
                vars.len() == n,
                j <= order.len(),
                forall|a: int, b: int| 0 <= a < b < order.len() ==> order@[a] != order@[b],
                forall|a: int| 0 <= a < order.len() ==> #[trigger] order@[a] < n,
                before.len() == j,
                j > 0 ==> before[0] == 0,
                forall|a: int| 0 <= a < j ==> #[trigger] before[a] <= var_nodes.len(),
                forall|x: int|
                    0 <= x < n ==> (#[trigger] vars@[x] is Some ==> exists|a: int|
                        0 <= a < j && order@[a] == x),
                forall|a: int|
                    0 <= a < j ==> ((#[trigger] vars@[order@[a] as int] is Some) <==> needs_var_for(
                        counts@[order@[a] as int] as int,
                        graph.nodes()[order@[a] as int],
                    )),
                forall|a: int|
                    0 <= a < j ==> (#[trigger] vars@[order@[a] as int] matches Some(w) ==> w.0 == before[a]),
                forall|a: int|
                    0 <= a < j ==> before[a] + (if vars@[order@[a] as int] is Some {
                        1nat
                    } else {
                        0nat
                    }) == (if a + 1 < j {
                        before[a + 1]
                    } else {
                        var_nodes.len() as nat
                    }),
                forall|v: int|
                    0 <= v < var_nodes.len() ==> #[trigger] var_nodes@[v] < n && vars@[var_nodes@[v] as int]
                        == Some(VarId(v as usize)),
                forall|x: int|
                    0 <= x < n ==> (#[trigger] vars@[x] matches Some(w) ==> w.0 < var_nodes.len()
                        && var_nodes@[w.0 as int] == x),
                var_nodes.len() <= j,
            decreases order.len() - j,
        {
            let x = order[j];
            let ghost vars0 = vars@;
            let ghost vn0 = var_nodes@;
            proof {
                before = before.push(var_nodes.len() as nat);
                assert(vars@[x as int] is None) by {
                    if vars@[x as int] is Some {
                        let a = choose|a: int| 0 <= a < j && order@[a] == x;
                    }
                }
            }
            if needs_var(counts[x], graph.node(x)) {
                let id = VarId(var_nodes.len());
                vars.set(x, Some(id));
                var_nodes.push(x);
            }
            proof {
                assert forall|x2: int| 0 <= x2 < n implies (#[trigger] vars@[x2] is Some ==> exists|a: int|
                    0 <= a < j + 1 && order@[a] == x2) by {
                    if x2 != x && vars@[x2] is Some {
                        assert(vars0[x2] is Some);
                    }
                    if x2 == x {
                        assert(order@[j as int] == x);
                    }
                }
                assert forall|a: int| 0 <= a < j + 1 implies ((#[trigger] vars@[order@[a] as int] is Some)
                    <==> needs_var_for(counts@[order@[a] as int] as int, graph.nodes()[order@[a] as int])) by {
                    if a < j {
                        assert(order@[a] != order@[j as int]);
                    }
                }
                assert forall|a: int| 0 <= a < j + 1 implies (#[trigger] vars@[order@[a] as int] matches Some(w)
                    ==> w.0 == before[a]) by {
                    if a < j {
                        assert(order@[a] != order@[j as int]);
                    }
                }
                assert forall|a: int| 0 <= a < j + 1 implies before[a] + (if vars@[order@[a] as int] is Some {
                    1nat
                } else {
                    0nat
                }) == (if a + 1 < j + 1 {
                    before[a + 1]
                } else {
                    var_nodes.len() as nat
                }) by {
                    if a < j {
                        assert(order@[a] != order@[j as int]);
                    }
                }
                assert forall|v: int| 0 <= v < var_nodes.len() implies #[trigger] var_nodes@[v] < n
                    && vars@[var_nodes@[v] as int] == Some(VarId(v as usize)) by {
                    if v < vn0.len() {
                        assert(var_nodes@[v] == vn0[v]);
                        assert(vars0[vn0[v] as int] == Some(VarId(v as usize)));
                        assert(vn0[v] != x);
                    }
                }
            }
            j = j + 1;
        }
        let ghost vmap = vars@;
        proof {
            assert forall|x: int| 0 <= x < n implies ((#[trigger] vmap[x] is Some) <==> gets_var(graph, roots@, x)) by {
                let xi = x as int;
                if vmap[x] is Some {
                    let a = choose|a: int| 0 <= a < order.len() && order@[a] == x;
                    assert(order@.contains((xi as int) as usize));
                    assert(in_reach@[x]);
                    assert(vars@[order@[a] as int] is Some);
                }
                if gets_var(graph, roots@, x) {
                    assert(in_reach@[x]);
                    let a = choose|a: int| 0 <= a < order.len() && order@[a] == x;
                    assert(counts@[x] == capped(uses(graph, roots@, x)));
                    assert(needs_var_for(counts@[order@[a] as int] as int, graph.nodes()[order@[a] as int]));
                }
            }
        }

        // Write each variable and each inlined node, operands first.
        let mut simple: Vec<Option<SimplifiedExpr>> = Vec::new();
        let mut i: usize = 0;
        while i < n
            invariant
                i <= n,
                simple.len() == i,
                forall|x: int| 0 <= x < i ==> #[trigger] simple@[x] is None,
            decreases n - i,
        {
            simple.push(None);
            i = i + 1;
        }
        let mut var_exprs: Vec<SimplifiedExpr> = Vec::new();
        let mut j: usize = 0;
        while j < order.len()
            invariant
                graph.wf(),
                reg.wf(graph),
                registry_covers(reg, graph, roots@),
                n == graph.nodes().len(),
                vars@ == vmap,
                vars.len() == n,
                simple.len() == n,
                j <= order.len(),
                forall|a: int, b: int| 0 <= a < b < order.len() ==> order@[a] != order@[b],
                forall|a: int| 0 <= a < order.len() ==> #[trigger] order@[a] < n,
                forall|x: int|
                    0 <= x < n ==> (#[trigger] order@.contains(x as usize) <==> reachable(graph, roots@, x)),
                forall|a: int, k: int|
                    0 <= a < order.len() && 0 <= k < pred_adj(graph)[order@[a] as int].len()
                        ==> #[trigger] succ_before(pred_adj(graph), order@, a, k),
                before.len() == order.len(),
                forall|a: int| 0 <= a < order.len() ==> #[trigger] before[a] <= var_nodes.len(),
                forall|a: int|
                    0 <= a < order.len() ==> (#[trigger] vmap[order@[a] as int] matches Some(w) ==> w.0 == before[a]),
                forall|a: int|
                    0 <= a < order.len() ==> before[a] + (if vmap[order@[a] as int] is Some {
                        1nat
                    } else {
                        0nat
                    }) == (if a + 1 < order.len() {
                        before[a + 1]
                    } else {
                        var_nodes.len() as nat
                    }),
                forall|v: int|
                    0 <= v < var_nodes.len() ==> #[trigger] var_nodes@[v] < n && vmap[var_nodes@[v] as int]
                        == Some(VarId(v as usize)),
                var_exprs.len() == (if j < order.len() {
                    before[j as int]
                } else {
                    var_nodes.len() as nat
                }),
                forall|v: int|
                    0 <= v < var_exprs.len() ==> simplifies(
                        graph,
                        reg,
                        vmap,
                        var_nodes@[v] as int,
                        #[trigger] list_view(var_exprs@)[v],
                    ),
                forall|a: int| 0 <= a < j ==> ready(graph, reg, vmap, simple@, #[trigger] order@[a] as int),
            decreases order.len() - j,
        {
            let x = order[j];
            proof {
                assert(order@.contains(x));
                assert(order@.contains((x as int) as usize));
                assert(reachable(graph, roots@, x as int));
                if graph.nodes()[x as int] is StructLiteral {
                    assert(reg.position(graph.nodes()[x as int]->StructLiteral_ty) is Some);
                }
                let ps = graph.nodes()[x as int].preds();
                assert forall|k: int| 0 <= k < ps.len() implies ready(graph, reg, vmap, simple@, #[trigger] ps[k] as int) by {
                    assert(pred_adj(graph)[x as int] == ps);
                    assert(succ_before(pred_adj(graph), order@, j as int, k));
                    let a = choose|a: int| 0 <= a < j && order@[a] == pred_adj(graph)[order@[j as int] as int][k];
                    assert(ready(graph, reg, vmap, simple@, order@[a] as int));
                }
            }
            let e = map_expr(graph, reg, &vars, &simple, x);
            let ghost simple0 = simple@;
            if vars[x].is_some() {
                let ghost ve0 = var_exprs@;
                var_exprs.push(e);
                proof {
                    lemma_list_view(ve0);
                    lemma_list_view(var_exprs@);
                    let w = vmap[x as int]->0;
                    assert(w.0 == before[j as int]);
                    assert(var_nodes@[w.0 as int] == x) by {
                        assert(vmap[var_nodes@[w.0 as int] as int] == Some(VarId(w.0)));
                        assert(w.0 < var_nodes.len());
                    }
                    assert forall|v: int| 0 <= v < var_exprs.len() implies simplifies(
                        graph,
                        reg,
                        vmap,
                        var_nodes@[v] as int,
                        #[trigger] list_view(var_exprs@)[v],
                    ) by {
                        if v < ve0.len() {
                            assert(list_view(var_exprs@)[v] == list_view(ve0)[v]);
                        }
                    }
                }
            } else {
                simple.set(x, Some(e));
                proof {
                    assert forall|a: int| 0 <= a < j + 1 implies ready(graph, reg, vmap, simple@, #[trigger] order@[a] as int) by {
                        if a < j {
                            assert(order@[a] != x);
                            assert(ready(graph, reg, vmap, simple0, order@[a] as int));
                        }
                    }
                }
            }
            j = j + 1;
        }

        // Write the roots.
        let mut simplified_roots: Vec<SimplifiedExpr> = Vec::new();
        let mut i: usize = 0;
        while i < roots.len()
            invariant
                graph.wf(),
                n == graph.nodes().len(),
                vars@ == vmap,
                vars.len() == n,
                simple.len() == n,
                forall|q: int| 0 <= q < roots.len() ==> #[trigger] roots@[q] < n,
                forall|x: int|
                    0 <= x < n ==> (#[trigger] order@.contains(x as usize) <==> reachable(graph, roots@, x)),
                forall|a: int| 0 <= a < order.len() ==> ready(graph, reg, vmap, simple@, #[trigger] order@[a] as int),
                i <= roots.len(),
                simplified_roots.len() == i,
                forall|q: int|
                    0 <= q < i ==> refers(graph, reg, vmap, roots@[q] as int, #[trigger] list_view(simplified_roots@)[q]),
            decreases roots.len() - i,
        {
            let r = roots[i];
            proof {
                crate::gen::topo::lemma_reaches_refl(pred_adj(graph), r as int);
                assert(reachable(graph, roots@, r as int));
                assert(order@.contains((r as int) as usize));
                let a = choose|a: int| 0 <= a < order.len() && order@[a] == r;
                assert(ready(graph, reg, vmap, simple@, order@[a] as int));
            }
            let e = map_pred(graph, reg, &vars, &simple, r);
            let ghost sr0 = simplified_roots@;
            simplified_roots.push(e);
            proof {
                lemma_list_view(sr0);
                lemma_list_view(simplified_roots@);
                assert forall|q: int| 0 <= q < i + 1 implies refers(
                    graph,
                    reg,
                    vmap,
                    roots@[q] as int,
                    #[trigger] list_view(simplified_roots@)[q],
                ) by {
                    if q < i {
                        assert(list_view(simplified_roots@)[q] == list_view(sr0)[q]);
                    }
                }
            }
            i = i + 1;
        }
        let ghost var_nodes_len = var_nodes.len() as nat;
        let vf = VarForm {
            var_exprs,
            var_nodes,
            expr_to_var: vars,
            simplified_exprs: simple,
            simplified_roots,
        };
        proof {
            lemma_list_view(vf.var_exprs@);
            lemma_list_view(vf.simplified_roots@);
            let total = var_nodes_len;
            assert(numbering_ok(graph, vmap, order@, before, total));
            assert(numbering_ok(graph, vf.vars_view(), dfs_order(pred_adj(graph), roots@), before, vf.num_vars()));
            assert forall|v: int| 0 <= v < vf.num_vars() implies var_refs_below(
                #[trigger] vf.var_exprs_view()[v],
                v as nat,
            ) by {
                let x = vf.var_nodes_view()[v];
                assert(vmap[x as int] == Some(VarId(v as usize)));
                assert(order@.contains((x as int) as usize));
                let a = choose|a: int| 0 <= a < order.len() && order@[a] == x;
                assert(before[a] == v);
                assert forall|b: int| 0 <= b < a implies (#[trigger] vmap[order@[b] as int] matches Some(w) ==> w.0 < v) by {
                    lemma_before_grows(graph, vmap, order@, before, total, b, a);
                }
                lemma_simplifies_refs(graph, reg, vmap, order@, before, total, a, vf.var_exprs_view()[v], v as nat);
            }
            assert forall|i: int| 0 <= i < roots.len() implies var_refs_below(
                #[trigger] vf.roots_view()[i],
                vf.num_vars(),
            ) by {
                let r = roots@[i];
                crate::gen::topo::lemma_reaches_refl(pred_adj(graph), r as int);
                assert(reachable(graph, roots@, r as int));
                assert(order@.contains((r as int) as usize));
                let a = choose|a: int| 0 <= a < order.len() && order@[a] == r;
                if vmap[r as int] is None {
                    assert forall|b: int| 0 <= b < a implies (#[trigger] vmap[order@[b] as int] matches Some(w)
                        ==> w.0 < vf.num_vars()) by {
                    }
                    lemma_simplifies_refs(graph, reg, vmap, order@, before, total, a, vf.roots_view()[i], vf.num_vars());
                }
            }
            assert forall|x: int| 0 <= x < vmap.len() implies (#[trigger] vmap[x] matches Some(w) ==> w.0
                < vf.num_vars() && vf.var_nodes_view()[w.0 as int] == x) by {
            }
        }
        vf
    }

    /// The definitions of the variables, by number.
    pub fn var_exprs(&self) -> (r: &Vec<SimplifiedExpr>)
        ensures
            list_view(r@) == self.var_exprs_view(),
            r.len() == self.num_vars(),
    {
        &self.var_exprs
    }

    /// How each root is written.
    pub fn simplified_roots(&self) -> (r: &Vec<SimplifiedExpr>)
        ensures
            list_view(r@) == self.roots_view(),
    {
        &self.simplified_roots
    }
}

/// In the variable form of an expression graph, every variable is defined
/// by an expression that refers only to variables numbered below it, so
/// variables are numbered after their dependencies; and no variable is
/// defined as a bare argument or literal, which are always inlined.
pub proof fn lemma_var_definitions(vf: &VarForm, graph: &ExprGraph, reg: &StructRegistry, roots: Seq<usize>)
    requires
        graph.wf(),
        vf.is_form_of(graph, reg, roots),
    ensures
        forall|v: int|
            0 <= v < vf.var_exprs_view().len() ==> {
                let e = #[trigger] vf.var_exprs_view()[v];
                &&& var_refs_below(e, v as nat)
                &&& !(e is Arg)
                &&& !(e is ScalarLiteral)
            },
{
    assert forall|v: int| 0 <= v < vf.var_exprs_view().len() implies {
        let e = #[trigger] vf.var_exprs_view()[v];
        &&& var_refs_below(e, v as nat)
        &&& !(e is Arg)
        &&& !(e is ScalarLiteral)
    } by {
        let x = vf.var_nodes_view()[v] as int;
        let vmap = vf.vars_view();
        assert(vmap[x] is Some);
        assert(gets_var(graph, roots, x));
        assert(simplifies(graph, reg, vmap, x, vf.var_exprs_view()[v]));
    }
}

} // verus!

verus! {

/// Positions in a topological order, with the variable count reached before
/// each position.
pub open spec fn numbering_ok(
    graph: &ExprGraph,
    vmap: Seq<Option<VarId>>,
    order: Seq<usize>,
    before: Seq<nat>,
    total: nat,
) -> bool {
    &&& vmap.len() == graph.nodes().len()
    &&& before.len() == order.len()
    &&& forall|a: int, b: int| 0 <= a < b < order.len() ==> order[a] != order[b]
    &&& forall|a: int| 0 <= a < order.len() ==> #[trigger] order[a] < graph.nodes().len()
    &&& forall|a: int, k: int|
        0 <= a < order.len() && 0 <= k < pred_adj(graph)[order[a] as int].len() ==> #[trigger] succ_before(
            pred_adj(graph),
            order,
            a,
            k,
        )
    &&& forall|a: int| 0 <= a < order.len() ==> (#[trigger] vmap[order[a] as int] matches Some(w) ==> w.0 == before[a])
    &&& forall|a: int|
        0 <= a < order.len() ==> before[a] + (if vmap[order[a] as int] is Some {
            1nat
        } else {
            0nat
        }) == (if a + 1 < order.len() {
            before[a + 1]
        } else {
            total
        })
}

proof fn lemma_before_grows(
    graph: &ExprGraph,
    vmap: Seq<Option<VarId>>,
    order: Seq<usize>,
    before: Seq<nat>,
    total: nat,
    b: int,
    a: int,
)
    requires
        numbering_ok(graph, vmap, order, before, total),
        0 <= b < a <= order.len(),
    ensures
        before[b] + (if vmap[order[b] as int] is Some {
            1nat
        } else {
            0nat
        }) <= (if a < order.len() {
            before[a]
        } else {
            total
        }),
    decreases a - b,
{
    if b + 1 < a {
        lemma_before_grows(graph, vmap, order, before, total, b + 1, a);
    }
}

proof fn lemma_simplifies_refs(
    graph: &ExprGraph,
    reg: &StructRegistry,
    vmap: Seq<Option<VarId>>,
    order: Seq<usize>,
    before: Seq<nat>,
    total: nat,
    a: int,
    e: ExprView,
    bound: nat,
)
    requires
        graph.wf(),
        numbering_ok(graph, vmap, order, before, total),
        0 <= a < order.len(),
        simplifies(graph, reg, vmap, order[a] as int, e),
        forall|b: int| 0 <= b < a ==> (#[trigger] vmap[order[b] as int] matches Some(w) ==> w.0 < bound),
    ensures
        var_refs_below(e, bound),
    decreases a, 1int, 0int,
{
    let x = order[a] as int;
    let node = graph.nodes()[x];
    let ps = node.preds();
    assert(pred_adj(graph)[x] == ps);
    match node {
        Expr::Binary { left, right, .. } => {
            assert(ps[0] == left && ps[1] == right);
            let b0 = lemma_pred_position(graph, vmap, order, before, total, a, 0);
            let b1 = lemma_pred_position(graph, vmap, order, before, total, a, 1);
            if let ExprView::Binary { left: l, right: r, .. } = e {
                lemma_refers_refs(graph, reg, vmap, order, before, total, a, b0, *l, bound);
                lemma_refers_refs(graph, reg, vmap, order, before, total, a, b1, *r, bound);
            }
        },
        Expr::Field { base, .. } => {
            assert(ps[0] == base);
            let b0 = lemma_pred_position(graph, vmap, order, before, total, a, 0);
            if let ExprView::Field { base: bb, .. } = e {
                lemma_refers_refs(graph, reg, vmap, order, before, total, a, b0, *bb, bound);
            }
        },
        Expr::Branch { cond, yes, no, .. } => {
            assert(ps[0] == cond && ps[1] == yes && ps[2] == no);
            let b0 = lemma_pred_position(graph, vmap, order, before, total, a, 0);
            let b1 = lemma_pred_position(graph, vmap, order, before, total, a, 1);
            let b2 = lemma_pred_position(graph, vmap, order, before, total, a, 2);
            if let ExprView::Branch { cond: c, yes: y, no: n, .. } = e {
                lemma_refers_refs(graph, reg, vmap, order, before, total, a, b0, *c, bound);
                lemma_refers_refs(graph, reg, vmap, order, before, total, a, b1, *y, bound);
                lemma_refers_refs(graph, reg, vmap, order, before, total, a, b2, *n, bound);
            }
        },
        Expr::StructLiteral { args, .. } => {
            if let ExprView::CallFunc { args: es, .. } = e {
                lemma_refs_ok_refs(graph, reg, vmap, order, before, total, a, args@, es, bound);
            }
        },
        Expr::CallFuncDef { args, .. } => {
            if let ExprView::CallFunc { args: es, .. } = e {
                lemma_refs_ok_refs(graph, reg, vmap, order, before, total, a, args@, es, bound);
            }
        },
        Expr::CallBuiltIn { args, .. } => {
            if let ExprView::CallFunc { args: es, .. } = e {
                lemma_refs_ok_refs(graph, reg, vmap, order, before, total, a, args@, es, bound);
            }
        },
        _ => {},
    }
}

/// Operand `k` of the node at position `a` stands at an earlier position.
proof fn lemma_pred_position(
    graph: &ExprGraph,
    vmap: Seq<Option<VarId>>,
    order: Seq<usize>,
    before: Seq<nat>,
    total: nat,
    a: int,
    k: int,
) -> (b: int)
    requires
        numbering_ok(graph, vmap, order, before, total),
        0 <= a < order.len(),
        0 <= k < graph.nodes()[order[a] as int].preds().len(),
    ensures
        0 <= b < a,
        order[b] == graph.nodes()[order[a] as int].preds()[k],
{
    assert(pred_adj(graph)[order[a] as int] == graph.nodes()[order[a] as int].preds());
    assert(succ_before(pred_adj(graph), order, a, k));
    choose|b: int| 0 <= b < a && order[b] == pred_adj(graph)[order[a] as int][k]
}

proof fn lemma_refers_refs(
    graph: &ExprGraph,
    reg: &StructRegistry,
    vmap: Seq<Option<VarId>>,
    order: Seq<usize>,
    before: Seq<nat>,
    total: nat,
    a: int,
    b: int,
    e: ExprView,
    bound: nat,
)
    requires
        graph.wf(),
        numbering_ok(graph, vmap, order, before, total),
        0 <= b < a < order.len(),
        refers(graph, reg, vmap, order[b] as int, e),
        forall|c: int| 0 <= c < a ==> (#[trigger] vmap[order[c] as int] matches Some(w) ==> w.0 < bound),
    ensures
        var_refs_below(e, bound),
    decreases b, 2int, 0int,
{
    if vmap[order[b] as int] is None {
        lemma_simplifies_refs(graph, reg, vmap, order, before, total, b, e, bound);
    }
}

proof fn lemma_refs_ok_refs(
    graph: &ExprGraph,
    reg: &StructRegistry,
    vmap: Seq<Option<VarId>>,
    order: Seq<usize>,
    before: Seq<nat>,
    total: nat,
    a: int,
    args: Seq<usize>,
    es: Seq<ExprView>,
    bound: nat,
)
    requires
        graph.wf(),
        numbering_ok(graph, vmap, order, before, total),
        0 <= a < order.len(),
        refs_ok(graph, reg, vmap, order[a] as int, args, es),
        forall|k: int| 0 <= k < args.len() ==> #[trigger] graph.nodes()[order[a] as int].preds().contains(args[k]),
        forall|c: int| 0 <= c < a ==> (#[trigger] vmap[order[c] as int] matches Some(w) ==> w.0 < bound),
    ensures
        args_refs_below(es, bound),
    decreases a, 0int, args.len(),
{
    if args.len() > 0 {
        let ps = graph.nodes()[order[a] as int].preds();
        assert(ps.contains(args[args.len() - 1]));
        let k = choose|k: int| 0 <= k < ps.len() && ps[k] == args.last();
        let b = lemma_pred_position(graph, vmap, order, before, total, a, k);
        lemma_refers_refs(graph, reg, vmap, order, before, total, a, b, es.last(), bound);
        let init = args.drop_last();
        assert forall|q: int| 0 <= q < init.len() implies #[trigger] graph.nodes()[order[a] as int].preds().contains(init[q]) by {
            assert(init[q] == args[q]);
            assert(graph.nodes()[order[a] as int].preds().contains(args[q]));
        }
        lemma_refs_ok_refs(graph, reg, vmap, order, before, total, a, init, es.drop_last(), bound);
    }
}

} // verus!
