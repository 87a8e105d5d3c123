use vstd::prelude::*;

use crate::dag::Type;

use super::simplified_expr::{
    args_refs_below, expr_view, lemma_list_view, list_view, var_refs_below, ExprView, SimplifiedExpr, VarId,
};
use super::var_form::VarForm;

verus! {

/// The number of a scope: a block of the generated code.
pub type ScopeId = usize;

/// `e` reads variable `v` where it is written, that is, outside of the arms
/// of a conditional: the arms are scopes of their own.
pub open spec fn uses_var(e: ExprView, v: nat) -> bool
    decreases e,
{
    match e {
        ExprView::Arg { .. } => false,
        ExprView::ScalarLiteral { .. } => false,
        ExprView::Binary { left, right, .. } => uses_var(*left, v) || uses_var(*right, v),
        ExprView::CallFunc { args, .. } => args_use_var(args, v),
        ExprView::Field { base, .. } => uses_var(*base, v),
        ExprView::Branch { cond, .. } => uses_var(*cond, v),
        ExprView::Var { id, .. } => id.0 == v,
    }
}

/// One of the expressions `args` reads variable `v`.
pub open spec fn args_use_var(args: Seq<ExprView>, v: nat) -> bool
    decreases args,
{
    if args.len() == 0 {
        false
    } else {
        args_use_var(args.drop_last(), v) || uses_var(args.last(), v)
    }
}

/// An expression that refers only to variables below `b` reads none at or
/// above it.
pub proof fn lemma_below_unused(e: ExprView, b: nat, v: nat)
    requires
        var_refs_below(e, b),
        b <= v,
    ensures
        !uses_var(e, v),
    decreases e,
{
    match e {
        ExprView::Binary { left, right, .. } => {
            lemma_below_unused(*left, b, v);
            lemma_below_unused(*right, b, v);
        },
        ExprView::CallFunc { args, .. } => {
            lemma_args_below_unused(args, b, v);
        },
        ExprView::Field { base, .. } => {
            lemma_below_unused(*base, b, v);
        },
        ExprView::Branch { cond, .. } => {
            lemma_below_unused(*cond, b, v);
        },
        _ => {},
    }
}

proof fn lemma_args_below_unused(args: Seq<ExprView>, b: nat, v: nat)
    requires
        args_refs_below(args, b),
        b <= v,
    ensures
        !args_use_var(args, v),
    decreases args,
{
    if args.len() > 0 {
        lemma_args_below_unused(args.drop_last(), b, v);
        lemma_below_unused(args.last(), b, v);
    }
}

/// The parent of each scope.
pub open spec fn parents_of(scopes: Seq<Scope>) -> Seq<Option<usize>> {
    scopes.map_values(|s: Scope| s.parent_id)
}

/// The nesting depth of each scope.
pub open spec fn depths_of(scopes: Seq<Scope>) -> Seq<usize> {
    scopes.map_values(|s: Scope| s.depth)
}

/// The scopes form a tree rooted at scope 0, in which each scope comes after
/// its parent and lies one level deeper.
pub open spec fn tree_ok(ps: Seq<Option<usize>>, ds: Seq<usize>) -> bool {
    &&& ps.len() == ds.len()
    &&& ps.len() > 0
    &&& ps[0] is None
    &&& ds[0] == 0
    &&& forall|s: int|
        0 < s < ps.len() ==> (#[trigger] ps[s] matches Some(p) && p < s && ds[s] == ds[p as int] + 1)
}

/// Scope `a` is `s` or encloses it.
pub open spec fn is_anc(ps: Seq<Option<usize>>, a: int, s: int) -> bool
    decreases s,
{
    if 0 <= s < ps.len() {
        a == s || match ps[s] {
            Some(p) => p < s && is_anc(ps, a, p as int),
            None => false,
        }
    } else {
        false
    }
}

/// An enclosing scope is no deeper, and at the same depth it is the scope
/// itself.
pub proof fn lemma_anc_depth(ps: Seq<Option<usize>>, ds: Seq<usize>, c: int, s: int)
    requires
        tree_ok(ps, ds),
        is_anc(ps, c, s),
    ensures
        0 <= c <= s < ps.len(),
        ds[c] <= ds[s],
        ds[c] == ds[s] ==> c == s,
    decreases s,
{
    if c != s {
        let p = ps[s]->0;
        assert(s > 0);
        lemma_anc_depth(ps, ds, c, p as int);
    }
}

/// Adding a scope leaves the ancestry of the others as it was.
pub proof fn lemma_anc_frame(ps: Seq<Option<usize>>, x: Option<usize>, a: int, s: int)
    requires
        0 <= s < ps.len(),
    ensures
        is_anc(ps.push(x), a, s) == is_anc(ps, a, s),
    decreases s,
{
    assert(ps.push(x)[s] == ps[s]);
    if a != s {
        match ps[s] {
            Some(p) => {
                if p < s {
                    lemma_anc_frame(ps, x, a, p as int);
                }
            },
            None => {},
        }
    }
}

/// Only scope 0 is at depth 0.
proof fn lemma_depth_zero(ps: Seq<Option<usize>>, ds: Seq<usize>, s: int)
    requires
        tree_ok(ps, ds),
        0 <= s < ps.len(),
        ds[s] == 0,
    ensures
        s == 0,
{
    if s > 0 {
        assert(ps[s] is Some);
    }
}

/// Scope `s` has at most `s` enclosing scopes.
proof fn lemma_depth_bound(ps: Seq<Option<usize>>, ds: Seq<usize>, s: int)
    requires
        tree_ok(ps, ds),
        0 <= s < ps.len(),
    ensures
        ds[s] <= s,
    decreases s,
{
    if s > 0 {
        let p = ps[s]->0;
        assert(ps[s] is Some);
        lemma_depth_bound(ps, ds, p as int);
    }
}

/// `t` is one of the scope ids recorded in `states[w]`.
pub open spec fn holds(states: Seq<Vec<ScopeId>>, w: int, t: int) -> bool {
    exists|i: int| 0 <= i < states[w].len() && states[w]@[i] == t
}

/// Records scope `sid` for each variable that `e` reads outside of branch
/// arms.
fn unscoped_successors(e: &SimplifiedExpr, states: &mut Vec<Vec<ScopeId>>, sid: ScopeId)
    requires
        var_refs_below(e@, old(states).len() as nat),
    ensures
        final(states).len() == old(states).len(),
        forall|w: int, t: int|
            0 <= w < old(states).len() ==> (#[trigger] holds(final(states)@, w, t) <==> (holds(old(states)@, w, t)
                || (t == sid && uses_var(e@, w as nat)))),
    decreases e,
{
    match e {
        SimplifiedExpr::Branch { cond, .. } => {
            unscoped_successors(cond, states, sid);
        },
        SimplifiedExpr::Arg { .. } => {},
        SimplifiedExpr::ScalarLiteral { .. } => {},
        SimplifiedExpr::Binary { left, right, .. } => {
            let ghost s0 = states@;
            unscoped_successors(left, states, sid);
            unscoped_successors(right, states, sid);
        },
        SimplifiedExpr::CallFunc { args, .. } => {
            proof {
                lemma_list_view(args@);
            }
            let ghost v = list_view(args@);
            let ghost s0 = states@;
            assert(decreases_to!(e => args@));
            let mut i: usize = 0;
            while i < args.len()
                invariant
                    decreases_to!(e => args@),
                    i <= args.len(),
                    v == list_view(args@),
                    v.len() == args@.len(),
                    forall|j: int| 0 <= j < args@.len() ==> #[trigger] v[j] == expr_view(args@[j]),
                    args_refs_below(v, s0.len() as nat),
                    states.len() == s0.len(),
                    forall|w: int, t: int|
                        0 <= w < s0.len() ==> (#[trigger] holds(states@, w, t) <==> (holds(s0, w, t) || (t == sid
                            && args_use_var(v.take(i as int), w as nat)))),
                decreases args.len() - i,
            {
                assert(decreases_to!(args@ => args@[i as int]));
                proof {
                    lemma_args_refs_below_at(v, s0.len() as nat, i as int);
                }
                let ghost before = states@;
                unscoped_successors(&args[i], states, sid);
                proof {
                    let t1 = v.take(i + 1);
                    assert(t1.drop_last() == v.take(i as int));
                    assert(t1.last() == v[i as int]);
                }
                i = i + 1;
            }
            assert(v.take(args.len() as int) == v);
        },
        SimplifiedExpr::Field { base, .. } => {
            unscoped_successors(base, states, sid);
        },
        SimplifiedExpr::Var { id, .. } => {
            let ghost s0 = states@;
            let k = id.0;
            let ghost old_len = states@[k as int].len();
            states[k].push(sid);
            proof {
                assert forall|w: int, t: int| 0 <= w < s0.len() implies #[trigger] holds(states@, w, t) <==> (holds(
                    s0,
                    w,
                    t,
                ) || (t == sid && uses_var(e@, w as nat))) by {
                    if w == k {
                        if holds(states@, w, t) {
                            let i = choose|i: int| 0 <= i < states@[w].len() && states@[w]@[i] == t;
                            if i < old_len {
                                assert(s0[w]@[i] == t);
                            }
                        }
                        if holds(s0, w, t) {
                            let i = choose|i: int| 0 <= i < s0[w].len() && s0[w]@[i] == t;
                            assert(states@[w]@[i] == t);
                        }
                        if t == sid {
                            assert(states@[w]@[old_len as int] == t);
                        }
                    } else {
                        assert(states@[w] == s0[w]);
                    }
                }
            }
        },
    }
}

/// Each argument of a list that refers only to variables below `b` does so too.
proof fn lemma_args_refs_below_at(args: Seq<ExprView>, b: nat, i: int)
    requires
        args_refs_below(args, b),
        0 <= i < args.len(),
    ensures
        var_refs_below(args[i], b),
    decreases args.len(),
{
    if i < args.len() - 1 {
        lemma_args_refs_below_at(args.drop_last(), b, i);
        assert(args.drop_last()[i] == args[i]);
    }
}

/// How a variable gets its value.
pub enum VarInit<'a> {
    /// It is the value of an expression.
    Expr(&'a SimplifiedExpr),
    /// It is set in one of two scopes, depending on a condition.
    Branch { cond: &'a SimplifiedExpr, yes_id: ScopeId, no_id: ScopeId, ty: &'a Type },
}

/// A block of the generated code: the variables declared in it, in the order
/// of their numbers, and the value it ends with, if it is the arm of a
/// conditional.
pub struct Scope<'a> {
    pub parent_id: Option<ScopeId>,
    pub depth: usize,
    pub vars: Vec<(VarId, VarInit<'a>)>,
    pub result: Option<&'a SimplifiedExpr>,
}

/// The scopes of the generated code and where each variable is declared.
pub struct ScopeForm<'a> {
    scopes: Vec<Scope<'a>>,
    root_scope_id: ScopeId,
    var_states: Vec<Vec<ScopeId>>,
    homes: Ghost<Seq<ScopeId>>,
    arms: Ghost<Seq<(ScopeId, ScopeId)>>,
}

impl<'a> ScopeForm<'a> {
    /// The scopes, by number.
    pub closed spec fn scopes_view(&self) -> Seq<Scope<'a>> {
        self.scopes@
    }

    /// The number of the outermost scope.
    pub closed spec fn root_view(&self) -> ScopeId {
        self.root_scope_id
    }

    /// The scope in which each variable is declared.
    pub closed spec fn homes_view(&self) -> Seq<ScopeId> {
        self.homes@
    }

    /// The two arm scopes of each conditional variable.
    pub closed spec fn arms_view(&self) -> Seq<(ScopeId, ScopeId)> {
        self.arms@
    }

    /// The lowest scope that encloses both `u_id` and `v_id`.
    fn lca(&self, u_id: ScopeId, v_id: ScopeId) -> (r: ScopeId)
        requires
            tree_ok(parents_of(self.scopes@), depths_of(self.scopes@)),
            u_id < self.scopes.len(),
            v_id < self.scopes.len(),
        ensures
            r < self.scopes.len(),
            forall|c: int|
                #[trigger] is_anc(parents_of(self.scopes@), c, r as int) <==> (is_anc(
                    parents_of(self.scopes@),
                    c,
                    u_id as int,
                ) && is_anc(parents_of(self.scopes@), c, v_id as int)),
    {
        let ghost ps = parents_of(self.scopes@);
        let ghost ds = depths_of(self.scopes@);
        let mut u = u_id;
        let mut v = v_id;
        while self.scopes[u].depth != self.scopes[v].depth
            invariant
                tree_ok(ps, ds),
                ps == parents_of(self.scopes@),
                ds == depths_of(self.scopes@),
                u < self.scopes.len(),
                v < self.scopes.len(),
                forall|c: int|
                    (is_anc(ps, c, u as int) && is_anc(ps, c, v as int)) <==> (is_anc(ps, c, u_id as int) && is_anc(
                        ps,
                        c,
                        v_id as int,
                    )),
            decreases ds[u as int] + ds[v as int],
        {
            let ghost (u0, v0) = (u, v);
            if self.scopes[u].depth > self.scopes[v].depth {
                proof {
                    assert(ds[u as int] > 0);
                    if u == 0 {
                        assert(false);
                    }
                    assert(ps[u as int] is Some);
                }
                u = self.scopes[u].parent_id.unwrap();
                proof {
                    assert forall|c: int|
                        (is_anc(ps, c, u as int) && is_anc(ps, c, v as int)) <==> (is_anc(ps, c, u0 as int)
                            && is_anc(ps, c, v as int)) by {
                        if is_anc(ps, c, u0 as int) && is_anc(ps, c, v as int) {
                            lemma_anc_depth(ps, ds, c, v as int);
                            lemma_anc_depth(ps, ds, c, u0 as int);
                        }
                    }
                }
            } else {
                proof {
                    assert(ds[v as int] > 0);
                    if v == 0 {
                        assert(false);
                    }
                    assert(ps[v as int] is Some);
                }
                v = self.scopes[v].parent_id.unwrap();
                proof {
                    assert forall|c: int|
                        (is_anc(ps, c, u as int) && is_anc(ps, c, v as int)) <==> (is_anc(ps, c, u as int)
                            && is_anc(ps, c, v0 as int)) by {
                        if is_anc(ps, c, u as int) && is_anc(ps, c, v0 as int) {
                            lemma_anc_depth(ps, ds, c, v0 as int);
                            lemma_anc_depth(ps, ds, c, u as int);
                        }
                    }
                }
            }
        }
        while u != v
            invariant
                tree_ok(ps, ds),
                ps == parents_of(self.scopes@),
                ds == depths_of(self.scopes@),
                u < self.scopes.len(),
                v < self.scopes.len(),
                ds[u as int] == ds[v as int],
                forall|c: int|
                    (is_anc(ps, c, u as int) && is_anc(ps, c, v as int)) <==> (is_anc(ps, c, u_id as int) && is_anc(
                        ps,
                        c,
                        v_id as int,
                    )),
            decreases ds[u as int],
        {
            let ghost (u0, v0) = (u, v);
            proof {
                if ds[u as int] == 0 {
                    lemma_depth_zero(ps, ds, u as int);
                    lemma_depth_zero(ps, ds, v as int);
                }
                assert(u > 0 && v > 0);
                assert(ps[u as int] is Some);
                assert(ps[v as int] is Some);
            }
            u = self.scopes[u].parent_id.unwrap();
            v = self.scopes[v].parent_id.unwrap();
            proof {
                assert forall|c: int|
                    (is_anc(ps, c, u as int) && is_anc(ps, c, v as int)) <==> (is_anc(ps, c, u0 as int) && is_anc(
                        ps,
                        c,
                        v0 as int,
                    )) by {
                    if is_anc(ps, c, u0 as int) && is_anc(ps, c, v0 as int) {
                        lemma_anc_depth(ps, ds, c, u0 as int);
                        lemma_anc_depth(ps, ds, c, v0 as int);
                        if c == u0 as int {
                            lemma_anc_depth(ps, ds, u0 as int, v0 as int);
                        }
                        if c == v0 as int {
                            lemma_anc_depth(ps, ds, v0 as int, u0 as int);
                        }
                    }
                }
            }
        }
        proof {
            assert forall|c: int| #[trigger] is_anc(ps, c, u as int) implies is_anc(ps, c, u as int) && is_anc(
                ps,
                c,
                v as int,
            ) by {}
        }
        u
    }
}


/// The arm scopes `arm` of a conditional `e` read variable `v` in scope `t`.
pub open spec fn arm_uses(e: ExprView, arm: (ScopeId, ScopeId), t: int, v: nat) -> bool {
    match e {
        ExprView::Branch { yes, no, .. } => (arm.0 == t && uses_var(*yes, v)) || (arm.1 == t && uses_var(*no, v)),
        _ => false,
    }
}

/// Scope `t` reads variable `v`: through a root, which the outermost scope
/// computes, through the definition of a variable `u` (from `lo` on) that is
/// declared in `t`, or through the arm of a conditional that `t` is.
pub open spec fn use_site(
    roots: Seq<ExprView>,
    exprs: Seq<ExprView>,
    homes: Seq<ScopeId>,
    arms: Seq<(ScopeId, ScopeId)>,
    lo: int,
    v: nat,
    t: int,
) -> bool {
    ||| t == 0 && exists|i: int| 0 <= i < roots.len() && #[trigger] uses_var(roots[i], v)
    ||| exists|u: int| lo <= u < exprs.len() && homes[u] == t && #[trigger] uses_var(exprs[u], v)
    ||| exists|u: int| lo <= u < exprs.len() && #[trigger] arm_uses(exprs[u], arms[u], t, v)
}

/// Variable `v` is declared in the lowest scope that encloses every scope
/// that reads it; a variable that nothing reads is declared in the
/// outermost scope.
pub open spec fn home_ok(
    ps: Seq<Option<usize>>,
    roots: Seq<ExprView>,
    exprs: Seq<ExprView>,
    homes: Seq<ScopeId>,
    arms: Seq<(ScopeId, ScopeId)>,
    lo: int,
    v: int,
) -> bool {
    if exists|t: int| #[trigger] use_site(roots, exprs, homes, arms, lo, v as nat, t) {
        forall|c: int|
            #[trigger] is_anc(ps, c, homes[v] as int) <==> (forall|t: int|
                use_site(roots, exprs, homes, arms, lo, v as nat, t) ==> #[trigger] is_anc(ps, c, t))
    } else {
        homes[v] == 0
    }
}

/// How a variable with definition `e` is set: by the expression itself, or,
/// for a conditional, by its condition and its two arm scopes `arm`.
pub open spec fn init_matches(init: VarInit, e: ExprView, arm: (ScopeId, ScopeId)) -> bool {
    match init {
        VarInit::Expr(x) => x@ == e && !(e is Branch),
        VarInit::Branch { cond, yes_id, no_id, ty } => match e {
            ExprView::Branch { cond: c, ty: t, .. } => cond@ == *c && *ty == t && yes_id == arm.0 && no_id
                == arm.1,
            _ => false,
        },
    }
}

/// The arm scopes `arm` of conditional `e` are two children of scope `home`
/// that end with the two arms of `e`.
pub open spec fn arms_ok(scopes: Seq<Scope>, home: ScopeId, arm: (ScopeId, ScopeId), e: ExprView) -> bool {
    match e {
        ExprView::Branch { yes, no, .. } => {
            &&& arm.0 < scopes.len()
            &&& arm.1 < scopes.len()
            &&& arm.0 != arm.1
            &&& scopes[arm.0 as int].parent_id == Some(home)
            &&& scopes[arm.1 as int].parent_id == Some(home)
            &&& scopes[arm.0 as int].result matches Some(r) && r@ == *yes
            &&& scopes[arm.1 as int].result matches Some(r) && r@ == *no
        },
        _ => true,
    }
}

/// Variable `v` is among `vars`.
pub open spec fn declared_in(vars: Seq<(VarId, VarInit)>, v: int) -> bool {
    exists|j: int| 0 <= j < vars.len() && (#[trigger] vars[j]).0 == VarId(v as usize)
}

/// How many of the variables from `k` on are conditionals.
pub open spec fn branches_from(exprs: Seq<ExprView>, k: int) -> nat
    decreases exprs.len() - k,
{
    if k >= exprs.len() {
        0
    } else {
        branches_from(exprs, k + 1) + if exprs[k] is Branch {
            1nat
        } else {
            0nat
        }
    }
}

impl<'a> ScopeForm<'a> {
    /// The scopes are numbered as they are made: the outermost scope first,
    /// then, going from the highest variable down, the two arm scopes of each
    /// conditional variable, its `yes` arm before its `no` arm.
    pub open spec fn numbered_as_made(&self, vf: &VarForm) -> bool {
        let exprs = vf.var_exprs_view();
        &&& self.scopes_view().len() == 1 + 2 * branches_from(exprs, 0)
        &&& forall|v: int|
            0 <= v < exprs.len() && (#[trigger] exprs[v] is Branch) ==> self.arms_view()[v] == (
                (1 + 2 * branches_from(exprs, v + 1)) as usize,
                (2 + 2 * branches_from(exprs, v + 1)) as usize,
            )
    }

    /// These scopes declare the variables of `vf`: each one exactly once, in
    /// the lowest scope enclosing its readers, with its definition; a
    /// conditional variable is set in two arm scopes of its own.
    pub open spec fn arranges(&self, vf: &VarForm) -> bool {
        let scopes = self.scopes_view();
        let ps = parents_of(scopes);
        let n = vf.num_vars();
        let exprs = vf.var_exprs_view();
        let homes = self.homes_view();
        let arms = self.arms_view();
        &&& tree_ok(ps, depths_of(scopes))
        &&& self.root_view() == 0
        &&& scopes[0].result is None
        &&& homes.len() == n
        &&& arms.len() == n
        &&& forall|v: int|
            0 <= v < n ==> #[trigger] homes[v] < scopes.len() && declared_in(scopes[homes[v] as int].vars@, v)
        &&& forall|s: int, j: int|
            0 <= s < scopes.len() && 0 <= j < scopes[s].vars.len() ==> {
                let (id, init) = #[trigger] scopes[s].vars@[j];
                &&& id.0 < n
                &&& homes[id.0 as int] == s
                &&& init_matches(init, exprs[id.0 as int], arms[id.0 as int])
            }
        &&& forall|s: int, j: int, m: int|
            0 <= s < scopes.len() && 0 <= j < m < scopes[s].vars.len() ==> (#[trigger] scopes[s].vars@[j]).0.0
                < (#[trigger] scopes[s].vars@[m]).0.0
        &&& forall|v: int| 0 <= v < n ==> arms_ok(scopes, homes[v], #[trigger] arms[v], exprs[v])
        &&& forall|v: int| 0 <= v < n ==> #[trigger] home_ok(ps, vf.roots_view(), exprs, homes, arms, 0, v)
    }
}


/// Taking variable `k - 1` into account adds the readers that its
/// definition and its arms make.
proof fn lemma_use_site_step(
    roots: Seq<ExprView>,
    exprs: Seq<ExprView>,
    homes: Seq<ScopeId>,
    arms: Seq<(ScopeId, ScopeId)>,
    homes2: Seq<ScopeId>,
    arms2: Seq<(ScopeId, ScopeId)>,
    k: int,
    w: nat,
    t: int,
)
    requires
        0 < k <= exprs.len(),
        homes.len() == exprs.len(),
        homes2.len() == exprs.len(),
        arms.len() == exprs.len(),
        arms2.len() == exprs.len(),
        forall|u: int| k <= u < exprs.len() ==> homes2[u] == homes[u] && arms2[u] == arms[u],
    ensures
        use_site(roots, exprs, homes2, arms2, k - 1, w, t) <==> (use_site(roots, exprs, homes, arms, k, w, t)
            || (homes2[k - 1] == t && uses_var(exprs[k - 1], w)) || arm_uses(exprs[k - 1], arms2[k - 1], t, w)),
{
    if exists|u: int| k - 1 <= u < exprs.len() && homes2[u] == t && #[trigger] uses_var(exprs[u], w) {
        let u = choose|u: int| k - 1 <= u < exprs.len() && homes2[u] == t && #[trigger] uses_var(exprs[u], w);
        if u >= k {
            assert(homes[u] == t);
        }
    }
    if exists|u: int| k - 1 <= u < exprs.len() && #[trigger] arm_uses(exprs[u], arms2[u], t, w) {
        let u = choose|u: int| k - 1 <= u < exprs.len() && #[trigger] arm_uses(exprs[u], arms2[u], t, w);
        if u >= k {
            assert(arms[u] == arms2[u]);
        }
    }
    if exists|u: int| k <= u < exprs.len() && homes[u] == t && #[trigger] uses_var(exprs[u], w) {
        let u = choose|u: int| k <= u < exprs.len() && homes[u] == t && #[trigger] uses_var(exprs[u], w);
        assert(homes2[u] == t);
    }
    if exists|u: int| k <= u < exprs.len() && #[trigger] arm_uses(exprs[u], arms[u], t, w) {
        let u = choose|u: int| k <= u < exprs.len() && #[trigger] arm_uses(exprs[u], arms[u], t, w);
        assert(arms[u] == arms2[u]);
    }
    if homes2[k - 1] == t && uses_var(exprs[k - 1], w) {
        assert(exists|u: int| k - 1 <= u < exprs.len() && homes2[u] == t && #[trigger] uses_var(exprs[u], w));
    }
    if arm_uses(exprs[k - 1], arms2[k - 1], t, w) {
        assert(exists|u: int| k - 1 <= u < exprs.len() && #[trigger] arm_uses(exprs[u], arms2[u], t, w));
    }
}

/// A definition that refers only to variables below `b` neither reads a
/// variable at or above `b` nor lets its arms read one.
proof fn lemma_def_below_unused(e: ExprView, arm: (ScopeId, ScopeId), b: nat, v: nat, t: int)
    requires
        var_refs_below(e, b),
        b <= v,
    ensures
        !uses_var(e, v),
        !arm_uses(e, arm, t, v),
{
    lemma_below_unused(e, b, v);
    match e {
        ExprView::Branch { yes, no, .. } => {
            lemma_below_unused(*yes, b, v);
            lemma_below_unused(*no, b, v);
        },
        _ => {},
    }
}

/// Adding scopes keeps the ancestry of the existing ones.
proof fn lemma_anc_frame_all(ps: Seq<Option<usize>>, ps2: Seq<Option<usize>>, x: int, s: int)
    requires
        ps.len() <= ps2.len(),
        forall|i: int| 0 <= i < ps.len() ==> ps2[i] == ps[i],
        0 <= s < ps.len(),
    ensures
        is_anc(ps2, x, s) == is_anc(ps, x, s),
    decreases ps2.len() - ps.len(),
{
    if ps2.len() > ps.len() {
        let ps1 = ps2.drop_last();
        lemma_anc_frame_all(ps, ps1, x, s);
        lemma_anc_frame(ps1, ps2.last(), x, s);
        assert(ps1.push(ps2.last()) == ps2);
    } else {
        assert(ps2 == ps);
    }
}


/// A bound on the variables that an expression refers to can be raised.
proof fn lemma_refs_below_mono(e: ExprView, b: nat, b2: nat)
    requires
        var_refs_below(e, b),
        b <= b2,
    ensures
        var_refs_below(e, b2),
    decreases e,
{
    match e {
        ExprView::Binary { left, right, .. } => {
            lemma_refs_below_mono(*left, b, b2);
            lemma_refs_below_mono(*right, b, b2);
        },
        ExprView::CallFunc { args, .. } => {
            lemma_args_refs_below_mono(args, b, b2);
        },
        ExprView::Field { base, .. } => {
            lemma_refs_below_mono(*base, b, b2);
        },
        ExprView::Branch { cond, yes, no, .. } => {
            lemma_refs_below_mono(*cond, b, b2);
            lemma_refs_below_mono(*yes, b, b2);
            lemma_refs_below_mono(*no, b, b2);
        },
        _ => {},
    }
}

proof fn lemma_args_refs_below_mono(args: Seq<ExprView>, b: nat, b2: nat)
    requires
        args_refs_below(args, b),
        b <= b2,
    ensures
        args_refs_below(args, b2),
    decreases args,
{
    if args.len() > 0 {
        lemma_args_refs_below_mono(args.drop_last(), b, b2);
        lemma_refs_below_mono(args.last(), b, b2);
    }
}

impl<'a> ScopeForm<'a> {
    /// Arranges the variables of `var_form` into nested scopes: each variable
    /// is declared in the lowest scope that encloses all of its readers, and
    /// each conditional variable gets two arm scopes below its own.
    #[verifier::loop_isolation(false)]
    #[verifier::rlimit(100)]
    #[verifier::spinoff_prover]
    pub fn new(var_form: &'a VarForm) -> (sf: Self)
        requires
            var_form.refs_ordered(),
        ensures
            sf.arranges(var_form),
            sf.numbered_as_made(var_form),
    {
        let var_exprs = var_form.var_exprs();
        let roots = var_form.simplified_roots();
        let n = var_exprs.len();
        let ghost ev = var_form.var_exprs_view();
        let ghost rv = var_form.roots_view();
        proof {
            lemma_list_view(var_exprs@);
            lemma_list_view(roots@);
        }
        let mut var_states: Vec<Vec<ScopeId>> = Vec::new();
        let mut i: usize = 0;
        while i < n
            invariant
                i <= n,
                var_states.len() == i,
                forall|w: int| 0 <= w < i ==> #[trigger] var_states@[w].len() == 0,
            decreases n - i,
        {
            var_states.push(Vec::new());
            i = i + 1;
        }
        let mut scopes: Vec<Scope<'a>> = Vec::new();
        scopes.push(Scope { parent_id: None, depth: 0, vars: Vec::new(), result: None });
        let mut sf = ScopeForm {
            scopes,
            root_scope_id: 0,
            var_states,
            homes: Ghost(Seq::new(n as nat, |u: int| 0usize)),
            arms: Ghost(Seq::new(n as nat, |u: int| (0usize, 0usize))),
        };
        proof {
            assert(parents_of(sf.scopes@)[0] is None);
            assert(depths_of(sf.scopes@)[0] == 0);
            assert forall|w: int, t: int| 0 <= w < n implies !#[trigger] holds(sf.var_states@, w, t) by {}
        }
        let mut r: usize = 0;
        while r < roots.len()
            invariant
                r <= roots.len(),
                sf.var_states.len() == n,
                sf.scopes.len() == 1,
                sf.root_scope_id == 0,
                sf.homes@ == Seq::new(n as nat, |u: int| 0usize),
                sf.arms@ == Seq::new(n as nat, |u: int| (0usize, 0usize)),
                sf.scopes@[0].result is None,
                sf.scopes@[0].parent_id is None,
                sf.scopes@[0].depth == 0,
                sf.scopes@[0].vars.len() == 0,
                forall|w: int, t: int|
                    0 <= w < n ==> (#[trigger] holds(sf.var_states@, w, t) <==> (t == 0 && exists|j: int|
                        0 <= j < r && #[trigger] uses_var(rv[j], w as nat))),
            decreases roots.len() - r,
        {
            proof {
                lemma_refs_below_mono(rv[r as int], n as nat, n as nat);
            }
            let ghost before = sf.var_states@;
            unscoped_successors(&roots[r], &mut sf.var_states, 0);
            proof {
                assert forall|w: int, t: int| 0 <= w < n implies (#[trigger] holds(sf.var_states@, w, t) <==> (t
                    == 0 && exists|j: int| 0 <= j < r + 1 && #[trigger] uses_var(rv[j], w as nat))) by {
                    if t == 0 && uses_var(rv[r as int], w as nat) {
                        assert(holds(sf.var_states@, w, t));
                    }
                    if t == 0 && exists|j: int| 0 <= j < r + 1 && #[trigger] uses_var(rv[j], w as nat) {
                        let j = choose|j: int| 0 <= j < r + 1 && #[trigger] uses_var(rv[j], w as nat);
                        if j < r {
                            assert(holds(before, w, t));
                        }
                    }
                }
            }
            r = r + 1;
        }
        proof {
            assert forall|w: int, t: int| 0 <= w < n implies (#[trigger] holds(sf.var_states@, w, t) <==> use_site(
                rv,
                ev,
                sf.homes@,
                sf.arms@,
                n as int,
                w as nat,
                t,
            )) by {}
        }
        let mut k: usize = n;
        while k > 0
            invariant
                k <= n,
                n == ev.len(),
                ev == var_form.var_exprs_view(),
                rv == var_form.roots_view(),
                sf.var_states.len() == n,
                sf.homes@.len() == n,
                sf.arms@.len() == n,
                sf.scopes.len() >= 1,
                sf.root_scope_id == 0,
                tree_ok(parents_of(sf.scopes@), depths_of(sf.scopes@)),
                sf.scopes@[0].result is None,
                forall|w: int, t: int|
                    0 <= w < k ==> (#[trigger] holds(sf.var_states@, w, t) <==> use_site(
                        rv,
                        ev,
                        sf.homes@,
                        sf.arms@,
                        k as int,
                        w as nat,
                        t,
                    )),
                forall|w: int|
                    k <= w < n ==> #[trigger] sf.homes@[w] < sf.scopes.len() && declared_in(
                        sf.scopes@[sf.homes@[w] as int].vars@,
                        w,
                    ),
                forall|s: int, j: int|
                    0 <= s < sf.scopes.len() && 0 <= j < sf.scopes@[s].vars.len() ==> {
                        let (id, init) = #[trigger] sf.scopes@[s].vars@[j];
                        &&& k <= id.0 < n
                        &&& sf.homes@[id.0 as int] == s
                        &&& init_matches(init, ev[id.0 as int], sf.arms@[id.0 as int])
                    },
                forall|s: int, j: int, m: int|
                    0 <= s < sf.scopes.len() && 0 <= j < m < sf.scopes@[s].vars.len() ==> (
                    #[trigger] sf.scopes@[s].vars@[j]).0.0 < (#[trigger] sf.scopes@[s].vars@[m]).0.0,
                forall|w: int| k <= w < n ==> arms_ok(sf.scopes@, sf.homes@[w], #[trigger] sf.arms@[w], ev[w]),
                forall|w: int|
                    k <= w < n ==> #[trigger] home_ok(
                        parents_of(sf.scopes@),
                        rv,
                        ev,
                        sf.homes@,
                        sf.arms@,
                        k as int,
                        w,
                    ),
                forall|w: int, t: int|
                    0 <= w < n && #[trigger] use_site(rv, ev, sf.homes@, sf.arms@, k as int, w as nat, t) ==> 0
                        <= t < sf.scopes.len(),
                sf.scopes.len() == 1 + 2 * branches_from(ev, k as int),
                forall|w: int|
                    k <= w < n && (#[trigger] ev[w] is Branch) ==> sf.arms@[w] == (
                        (1 + 2 * branches_from(ev, w + 1)) as usize,
                        (2 + 2 * branches_from(ev, w + 1)) as usize,
                    ),
            decreases k,
        {
            k = k - 1;
            let ghost ps0 = parents_of(sf.scopes@);
            let ghost ds0 = depths_of(sf.scopes@);
            let ghost homes0 = sf.homes@;
            let ghost arms0 = sf.arms@;
            let ghost states0 = sf.var_states@;
            let ghost scopes0 = sf.scopes@;
            let ghost len0 = sf.scopes.len();
            let ghost kk = k as int;
            let list = &sf.var_states[k];
            proof {
                assert forall|j: int| 0 <= j < list.len() implies #[trigger] list@[j] < len0 && use_site(
                    rv,
                    ev,
                    homes0,
                    arms0,
                    kk + 1,
                    k as nat,
                    list@[j] as int,
                ) by {
                    assert(holds(states0, kk, list@[j] as int));
                }
            }
            let mut parent: ScopeId = 0;
            if list.len() > 0 {
                parent = list[0];
                let mut i: usize = 1;
                while i < list.len()
                    invariant
                        1 <= i <= list.len(),
                        parent < sf.scopes.len(),
                        forall|c: int|
                            #[trigger] is_anc(ps0, c, parent as int) <==> (forall|j: int|
                                0 <= j < i ==> #[trigger] is_anc(ps0, c, list@[j] as int)),
                    decreases list.len() - i,
                {
                    let ghost p0 = parent;
                    parent = sf.lca(parent, list[i]);
                    proof {
                        assert forall|c: int|
                            #[trigger] is_anc(ps0, c, parent as int) <==> (forall|j: int|
                                0 <= j < i + 1 ==> #[trigger] is_anc(ps0, c, list@[j] as int)) by {
                            if forall|j: int| 0 <= j < i + 1 ==> #[trigger] is_anc(ps0, c, list@[j] as int) {
                                assert(is_anc(ps0, c, list@[i as int] as int));
                            }
                        }
                    }
                    i = i + 1;
                }
            }
            proof {
                if list.len() > 0 {
                    assert forall|c: int|
                        #[trigger] is_anc(ps0, c, parent as int) <==> (forall|t: int|
                            use_site(rv, ev, homes0, arms0, kk + 1, k as nat, t) ==> #[trigger] is_anc(ps0, c, t)) by {
                        if is_anc(ps0, c, parent as int) {
                            assert forall|t: int| use_site(rv, ev, homes0, arms0, kk + 1, k as nat, t) implies #[trigger] is_anc(
                                ps0,
                                c,
                                t,
                            ) by {
                                assert(holds(states0, kk, t));
                                let j = choose|j: int| 0 <= j < list.len() && list@[j] == t;
                                assert(is_anc(ps0, c, list@[j] as int));
                            }
                        }
                        if forall|t: int| use_site(rv, ev, homes0, arms0, kk + 1, k as nat, t) ==> #[trigger] is_anc(ps0, c, t) {
                            assert forall|j: int| 0 <= j < list.len() implies #[trigger] is_anc(ps0, c, list@[j] as int) by {
                                assert(use_site(rv, ev, homes0, arms0, kk + 1, k as nat, list@[j] as int));
                            }
                        }
                    }
                    assert(use_site(rv, ev, homes0, arms0, kk + 1, k as nat, list@[0] as int));
                } else {
                    assert forall|t: int| !#[trigger] use_site(rv, ev, homes0, arms0, kk + 1, k as nat, t) by {
                        if use_site(rv, ev, homes0, arms0, kk + 1, k as nat, t) {
                            assert(holds(states0, kk, t));
                        }
                    }
                }
                lemma_depth_bound(ps0, ds0, parent as int);
                lemma_refs_below_mono(ev[kk], k as nat, n as nat);
            }
            let var_expr: &'a SimplifiedExpr = &var_exprs[k];
            let init: VarInit<'a> = match var_expr {
                SimplifiedExpr::Branch { cond, yes, no, ty } => {
                    unscoped_successors(cond, &mut sf.var_states, parent);
                    let d = sf.scopes[parent].depth + 1;
                    let yes_id = sf.scopes.len();
                    unscoped_successors(yes, &mut sf.var_states, yes_id);
                    sf.scopes.push(Scope { parent_id: Some(parent), depth: d, vars: Vec::new(), result: Some(&**yes) });
                    let no_id = sf.scopes.len();
                    unscoped_successors(no, &mut sf.var_states, no_id);
                    sf.scopes.push(Scope { parent_id: Some(parent), depth: d, vars: Vec::new(), result: Some(&**no) });
                    sf.arms = Ghost(sf.arms@.update(kk, (yes_id, no_id)));
                    proof {
                        let ps_b = parents_of(sf.scopes@);
                        let ds_b = depths_of(sf.scopes@);
                        assert(ps_b =~= ps0.push(Some(parent)).push(Some(parent)));
                        assert(ds_b =~= ds0.push(d).push(d));
                        assert forall|s: int| 0 < s < ps_b.len() implies (#[trigger] ps_b[s] matches Some(p) && p < s
                            && ds_b[s] == ds_b[p as int] + 1) by {
                            if s < len0 {
                                assert(ps_b[s] == ps0[s]);
                                assert(ps0[s] is Some);
                            }
                        }
                        assert(tree_ok(ps_b, ds_b));
                        assert(yes_id == len0 && no_id == len0 + 1);
                        assert forall|w: int, t: int| 0 <= w < n implies (#[trigger] holds(sf.var_states@, w, t) <==> (
                        holds(states0, w, t) || (t == parent && uses_var(ev[kk], w as nat)) || arm_uses(
                            ev[kk],
                            sf.arms@[kk],
                            t,
                            w as nat,
                        ))) by {}
                    }
                    VarInit::Branch { cond: &**cond, yes_id, no_id, ty }
                },
                _ => {
                    unscoped_successors(var_expr, &mut sf.var_states, parent);
                    proof {
                        assert(parents_of(sf.scopes@) == ps0);
                        assert(depths_of(sf.scopes@) == ds0);
                        assert forall|w: int, t: int| 0 <= w < n implies (#[trigger] holds(sf.var_states@, w, t) <==> (
                        holds(states0, w, t) || (t == parent && uses_var(ev[kk], w as nat)) || arm_uses(
                            ev[kk],
                            sf.arms@[kk],
                            t,
                            w as nat,
                        ))) by {}
                    }
                    VarInit::Expr(var_expr)
                },
            };
            let ghost scopes_mid = sf.scopes@;
            let ghost arms1 = sf.arms@;
            let ghost states1 = sf.var_states@;
            sf.scopes[parent].vars.insert(0, (VarId(k), init));
            sf.homes = Ghost(sf.homes@.update(kk, parent));
            proof {
                let ps1 = parents_of(sf.scopes@);
                let ds1 = depths_of(sf.scopes@);
                let homes1 = sf.homes@;
                assert(ps1 =~= parents_of(scopes_mid));
                assert(ds1 =~= depths_of(scopes_mid));
                assert(tree_ok(ps1, ds1));
                assert forall|u: int| kk + 1 <= u < n implies homes1[u] == homes0[u] && arms1[u] == arms0[u] by {}
                assert forall|w: int, t: int| 0 <= w < kk implies (#[trigger] holds(sf.var_states@, w, t)
                    <==> use_site(rv, ev, homes1, arms1, kk, w as nat, t)) by {
                    lemma_use_site_step(rv, ev, homes0, arms0, homes1, arms1, kk + 1, w as nat, t);
                }
                let newv = sf.scopes@[parent as int].vars@;
                let oldv = scopes_mid[parent as int].vars@;
                assert(newv == oldv.insert(0, (VarId(k), init)));
                assert forall|w: int| kk <= w < n implies #[trigger] homes1[w] < sf.scopes.len() && declared_in(
                    sf.scopes@[homes1[w] as int].vars@,
                    w,
                ) by {
                    if w == kk {
                        assert(newv[0].0 == VarId(w as usize));
                    } else if homes0[w] == parent {
                        let j = choose|j: int| 0 <= j < oldv.len() && (#[trigger] oldv[j]).0 == VarId(w as usize);
                        assert(newv[j + 1] == oldv[j]);
                    } else {
                        assert(sf.scopes@[homes0[w] as int] == scopes0[homes0[w] as int]);
                    }
                }
                assert forall|c: int, x: int| 0 <= x < len0 implies #[trigger] is_anc(ps1, c, x) == is_anc(ps0, c, x) by {
                    lemma_anc_frame_all(ps0, ps1, c, x);
                }
                assert forall|w: int, t: int| kk <= w < n implies #[trigger] use_site(rv, ev, homes1, arms1, kk, w as nat, t)
                    == use_site(rv, ev, homes0, arms0, kk + 1, w as nat, t) by {
                    lemma_use_site_step(rv, ev, homes0, arms0, homes1, arms1, kk + 1, w as nat, t);
                    lemma_def_below_unused(ev[kk], arms1[kk], k as nat, w as nat, t);
                }
                assert forall|w: int| kk <= w < n implies #[trigger] home_ok(ps1, rv, ev, homes1, arms1, kk, w) by {
                    if w > kk {
                        assert(home_ok(ps0, rv, ev, homes0, arms0, kk + 1, w));
                        assert(homes1[w] == homes0[w]);
                    }
                    if exists|t: int| #[trigger] use_site(rv, ev, homes1, arms1, kk, w as nat, t) {
                        let t0 = choose|t: int| #[trigger] use_site(rv, ev, homes1, arms1, kk, w as nat, t);
                        assert(use_site(rv, ev, homes0, arms0, kk + 1, w as nat, t0));
                        assert forall|c: int| #[trigger] is_anc(ps1, c, homes1[w] as int) <==> (forall|t: int|
                            use_site(rv, ev, homes1, arms1, kk, w as nat, t) ==> #[trigger] is_anc(ps1, c, t)) by {
                            assert(is_anc(ps1, c, homes1[w] as int) == is_anc(ps0, c, homes1[w] as int));
                            if forall|t: int| use_site(rv, ev, homes0, arms0, kk + 1, w as nat, t) ==> #[trigger] is_anc(ps0, c, t) {
                                assert forall|t: int| use_site(rv, ev, homes1, arms1, kk, w as nat, t) implies #[trigger] is_anc(
                                    ps1,
                                    c,
                                    t,
                                ) by {
                                    assert(use_site(rv, ev, homes0, arms0, kk + 1, w as nat, t));
                                    assert(is_anc(ps0, c, t));
                                }
                            }
                            if forall|t: int| use_site(rv, ev, homes1, arms1, kk, w as nat, t) ==> #[trigger] is_anc(ps1, c, t) {
                                assert forall|t: int| use_site(rv, ev, homes0, arms0, kk + 1, w as nat, t) implies #[trigger] is_anc(
                                    ps0,
                                    c,
                                    t,
                                ) by {
                                    assert(use_site(rv, ev, homes1, arms1, kk, w as nat, t));
                                    assert(is_anc(ps1, c, t));
                                }
                            }
                        }
                    } else {
                        assert forall|t: int| !#[trigger] use_site(rv, ev, homes0, arms0, kk + 1, w as nat, t) by {
                            assert(use_site(rv, ev, homes1, arms1, kk, w as nat, t) == use_site(rv, ev, homes0, arms0, kk + 1, w as nat, t));
                        }
                    }
                }
            }
        }
        sf
    }

    /// In scopes that arrange a variable form, every variable is declared in
    /// the scope that reads it or in one enclosing it: the variables that a
    /// variable's definition reads are numbered below it and declared in or
    /// around its scope; those that an arm of a conditional reads, in or
    /// around that arm's scope; those that the roots read, in the outermost
    /// scope. The two arm scopes of a conditional lie directly inside the
    /// scope that declares it, one level deeper.
    pub proof fn lemma_reads_are_declared(&self, vf: &VarForm)
        requires
            self.arranges(vf),
            vf.refs_ordered(),
        ensures
            forall|u: int, w: nat|
                0 <= u < vf.var_exprs_view().len() && #[trigger] uses_var(vf.var_exprs_view()[u], w) ==> w < u
                    && is_anc(parents_of(self.scopes_view()), self.homes_view()[w as int] as int, self.homes_view()[u] as int),
            forall|u: int, w: nat|
                0 <= u < vf.var_exprs_view().len() && #[trigger] arm_uses(
                    vf.var_exprs_view()[u],
                    self.arms_view()[u],
                    self.arms_view()[u].0 as int,
                    w,
                ) ==> w < u && is_anc(
                    parents_of(self.scopes_view()),
                    self.homes_view()[w as int] as int,
                    self.arms_view()[u].0 as int,
                ),
            forall|u: int, w: nat|
                0 <= u < vf.var_exprs_view().len() && #[trigger] arm_uses(
                    vf.var_exprs_view()[u],
                    self.arms_view()[u],
                    self.arms_view()[u].1 as int,
                    w,
                ) ==> w < u && is_anc(
                    parents_of(self.scopes_view()),
                    self.homes_view()[w as int] as int,
                    self.arms_view()[u].1 as int,
                ),
            forall|i: int, w: nat|
                0 <= i < vf.roots_view().len() && #[trigger] uses_var(vf.roots_view()[i], w) ==> w
                    < vf.var_exprs_view().len() && self.homes_view()[w as int] == 0,
            forall|u: int|
                0 <= u < vf.var_exprs_view().len() && (#[trigger] vf.var_exprs_view()[u] is Branch) ==> {
                    let home = self.homes_view()[u] as int;
                    let (yes_id, no_id) = self.arms_view()[u];
                    &&& self.scopes_view()[yes_id as int].parent_id == Some(home as usize)
                    &&& self.scopes_view()[no_id as int].parent_id == Some(home as usize)
                    &&& self.scopes_view()[yes_id as int].depth == self.scopes_view()[home].depth + 1
                    &&& self.scopes_view()[no_id as int].depth == self.scopes_view()[home].depth + 1
                },
    {
        let scopes = self.scopes_view();
        let ps = parents_of(scopes);
        let ds = depths_of(scopes);
        let exprs = vf.var_exprs_view();
        let roots = vf.roots_view();
        let homes = self.homes_view();
        let arms = self.arms_view();
        let n = exprs.len();
        assert forall|w: int, t: int|
            0 <= w < n && use_site(roots, exprs, homes, arms, 0, w as nat, t) implies is_anc(
            ps,
            homes[w] as int,
            t,
        ) by {
            assert(home_ok(ps, roots, exprs, homes, arms, 0, w));
            assert(homes[w] < scopes.len());
            assert(is_anc(ps, homes[w] as int, homes[w] as int));
        }
        assert forall|u: int, w: nat| 0 <= u < n && #[trigger] uses_var(exprs[u], w) implies w < u && is_anc(
            ps,
            homes[w as int] as int,
            homes[u] as int,
        ) by {
            if w >= u {
                lemma_below_unused(exprs[u], u as nat, w);
            }
            assert(use_site(roots, exprs, homes, arms, 0, w, homes[u] as int));
        }
        assert forall|u: int, w: nat|
            0 <= u < n && #[trigger] arm_uses(exprs[u], arms[u], arms[u].0 as int, w) implies w < u && is_anc(
            ps,
            homes[w as int] as int,
            arms[u].0 as int,
        ) by {
            if w >= u {
                if let ExprView::Branch { yes, no, .. } = exprs[u] {
                    lemma_below_unused(*yes, u as nat, w);
                    lemma_below_unused(*no, u as nat, w);
                }
            }
            assert(use_site(roots, exprs, homes, arms, 0, w, arms[u].0 as int));
        }
        assert forall|u: int, w: nat|
            0 <= u < n && #[trigger] arm_uses(exprs[u], arms[u], arms[u].1 as int, w) implies w < u && is_anc(
            ps,
            homes[w as int] as int,
            arms[u].1 as int,
        ) by {
            if w >= u {
                if let ExprView::Branch { yes, no, .. } = exprs[u] {
                    lemma_below_unused(*yes, u as nat, w);
                    lemma_below_unused(*no, u as nat, w);
                }
            }
            assert(use_site(roots, exprs, homes, arms, 0, w, arms[u].1 as int));
        }
        assert forall|i: int, w: nat| 0 <= i < roots.len() && #[trigger] uses_var(roots[i], w) implies w < n
            && homes[w as int] == 0 by {
            if w >= n {
                lemma_below_unused(roots[i], n, w);
            }
            assert(use_site(roots, exprs, homes, arms, 0, w, 0));
            assert(is_anc(ps, homes[w as int] as int, 0));
            lemma_anc_depth(ps, ds, homes[w as int] as int, 0);
        }
        assert forall|u: int| 0 <= u < n && (#[trigger] exprs[u] is Branch) implies {
            let home = homes[u] as int;
            let (yes_id, no_id) = arms[u];
            &&& scopes[yes_id as int].parent_id == Some(home as usize)
            &&& scopes[no_id as int].parent_id == Some(home as usize)
            &&& scopes[yes_id as int].depth == scopes[home].depth + 1
            &&& scopes[no_id as int].depth == scopes[home].depth + 1
        } by {
            assert(arms_ok(scopes, homes[u], arms[u], exprs[u]));
            let (yes_id, no_id) = arms[u];
            assert(ps[yes_id as int] == Some(homes[u]));
            assert(ps[no_id as int] == Some(homes[u]));
            assert(yes_id > 0 && no_id > 0);
            assert(ds[yes_id as int] == scopes[yes_id as int].depth);
            assert(ds[no_id as int] == scopes[no_id as int].depth);
            assert(ds[homes[u] as int] == scopes[homes[u] as int].depth);
        }
    }

    /// The arm scopes of each conditional come after the scope that declares
    /// it.
    pub open spec fn nested(&self) -> bool {
        &&& self.scopes_view().len() <= usize::MAX
        &&& forall|s: int, j: int|
            0 <= s < self.scopes_view().len() && 0 <= j < self.scopes_view()[s].vars.len() ==> match (
            #[trigger] self.scopes_view()[s].vars@[j]).1 {
                VarInit::Branch { yes_id, no_id, .. } => s < yes_id < self.scopes_view().len() && s < no_id
                    < self.scopes_view().len(),
                _ => true,
            }
    }

    /// Scopes that arrange variables are nested.
    pub proof fn lemma_nested(&self, vf: &VarForm)
        requires
            self.arranges(vf),
        ensures
            self.nested(),
    {
        let scopes = self.scopes_view();
        assert(self.scopes.len() == scopes.len());
        assert forall|s: int, j: int|
            0 <= s < scopes.len() && 0 <= j < scopes[s].vars.len() implies match (
            #[trigger] scopes[s].vars@[j]).1 {
                VarInit::Branch { yes_id, no_id, .. } => s < yes_id < scopes.len() && s < no_id < scopes.len(),
                _ => true,
            } by {
            let id = scopes[s].vars@[j].0.0 as int;
            assert(self.arms_view()[id] == self.arms_view()[id]);
            match scopes[s].vars@[j].1 {
                VarInit::Branch { yes_id, no_id, .. } => {
                    assert(arms_ok(scopes, self.homes_view()[id], self.arms_view()[id], vf.var_exprs_view()[id]));
                    assert(parents_of(scopes)[yes_id as int] == Some(s as usize));
                    assert(parents_of(scopes)[no_id as int] == Some(s as usize));
                },
                _ => {},
            }
        }
    }

    /// Scope number `scope_id`.
    pub fn scope(&self, scope_id: ScopeId) -> (r: &Scope<'a>)
        requires
            scope_id < self.scopes_view().len(),
        ensures
            *r == self.scopes_view()[scope_id as int],
    {
        &self.scopes[scope_id]
    }

    /// The outermost scope.
    pub fn root_scope(&self) -> (r: &Scope<'a>)
        requires
            self.root_view() < self.scopes_view().len(),
        ensures
            *r == self.scopes_view()[self.root_view() as int],
    {
        self.scope(self.root_scope_id)
    }
}

} // verus!
