use vstd::prelude::*;

use crate::dag::{type_refs_below, ExprGraph, Type};

use super::names::{lemma_struct_name_text_injective, struct_name, struct_name_text};
use super::topo::{
    dep_adj, dependency_lists, dfs_postorder, is_index_dag, lemma_pred_adj_dag, lemma_reaches_refl, reaches,
};

verus! {

/// The struct definition that a value of type `ty` needs a declaration of: the
/// struct itself, or the element struct of an array of structs.
pub open spec fn struct_of(ty: Type) -> Option<usize> {
    match ty {
        Type::Struct(id) => Some(id),
        Type::Array(elem, _) => match *elem {
            Type::Struct(id) => Some(id),
            _ => None,
        },
        _ => None,
    }
}

/// The struct definition that a value of type `ty` needs a declaration of.
pub fn get_struct_type(ty: &Type) -> (r: Option<usize>)
    ensures
        r == struct_of(*ty),
{
    match ty {
        Type::Struct(id) => Some(*id),
        Type::Array(elem, _) => match &**elem {
            Type::Struct(id) => Some(*id),
            _ => None,
        },
        _ => None,
    }
}

/// The structs that the fields of a struct need, field by field.
pub open spec fn field_structs(fields: Seq<(String, Type)>) -> Seq<usize>
    decreases fields.len(),
{
    if fields.len() == 0 {
        seq![]
    } else {
        let rest = field_structs(fields.drop_last());
        match struct_of(fields.last().1) {
            Some(id) => rest.push(id),
            None => rest,
        }
    }
}

/// The struct-to-struct edges of `graph`: struct `i` needs the structs of
/// its fields.
pub open spec fn field_adj(graph: &ExprGraph) -> Seq<Seq<usize>> {
    Seq::new(graph.structs().len(), |i: int| field_structs(graph.structs()[i].fields@))
}

/// Struct `s` is needed directly: by the type of a node that `roots` depend on,
/// or by one of the `extra` types.
pub open spec fn is_collected(graph: &ExprGraph, roots: Seq<usize>, extra: Seq<Type>, s: usize) -> bool {
    ||| exists|x: int|
        0 <= x < graph.nodes().len() && #[trigger] struct_of(graph.ty_at(x)) == Some(s) && exists|r: int|
            0 <= r < roots.len() && #[trigger] reaches(dep_adj(graph), roots[r] as int, x)
    ||| exists|j: int| 0 <= j < extra.len() && #[trigger] struct_of(extra[j]) == Some(s)
}

proof fn lemma_struct_of_below(ty: Type, n: int)
    requires
        type_refs_below(ty, n),
    ensures
        struct_of(ty) matches Some(id) ==> id < n,
{
    if let Type::Array(elem, _) = ty {
        assert(type_refs_below(*elem, n));
    }
}

proof fn lemma_field_structs_below(fields: Seq<(String, Type)>, n: int)
    requires
        forall|f: int| 0 <= f < fields.len() ==> type_refs_below(#[trigger] fields[f].1, n),
    ensures
        forall|k: int| 0 <= k < field_structs(fields).len() ==> #[trigger] field_structs(fields)[k] < n,
    decreases fields.len(),
{
    if fields.len() > 0 {
        let init = fields.drop_last();
        assert forall|f: int| 0 <= f < init.len() implies type_refs_below(#[trigger] init[f].1, n) by {
            assert(init[f] == fields[f]);
        }
        lemma_field_structs_below(init, n);
        assert(type_refs_below(fields[fields.len() - 1].1, n));
        lemma_struct_of_below(fields.last().1, n);
        let rest = field_structs(init);
        assert forall|k: int| 0 <= k < field_structs(fields).len() implies #[trigger] field_structs(fields)[k] < n by {
            if k < rest.len() {
                assert(field_structs(fields)[k] == rest[k]);
            }
        }
    }
}

/// Struct definitions refer only to earlier ones.
pub proof fn lemma_field_adj_dag(graph: &ExprGraph)
    requires
        graph.wf(),
    ensures
        is_index_dag(field_adj(graph)),
{
    let a = field_adj(graph);
    assert forall|i: int, k: int| 0 <= i < a.len() && 0 <= k < a[i].len() implies #[trigger] a[i][k] < i by {
        assert(graph.struct_ok(i));
        lemma_field_structs_below(graph.structs()[i].fields@, i);
    }
}

fn field_struct_list(fields: &Vec<(String, Type)>) -> (r: Vec<usize>)
    ensures
        r@ == field_structs(fields@),
{
    let mut r: Vec<usize> = Vec::new();
    let mut i: usize = 0;
    while i < fields.len()
        invariant
            i <= fields.len(),
            r@ == field_structs(fields@.take(i as int)),
        decreases fields.len() - i,
    {
        assert(fields@.take(i + 1).drop_last() == fields@.take(i as int));
        assert(fields@.take(i + 1).last() == fields@[i as int]);
        if let Some(id) = get_struct_type(&fields[i].1) {
            r.push(id);
        }
        i = i + 1;
    }
    assert(fields@.take(fields.len() as int) == fields@);
    r
}

fn struct_adjacency(graph: &ExprGraph) -> (adj: Vec<Vec<usize>>)
    ensures
        adj.len() == graph.structs().len(),
        adj.deep_view() == field_adj(graph),
{
    let mut adj: Vec<Vec<usize>> = Vec::new();
    let n = graph.num_structs();
    let mut i: usize = 0;
    while i < n
        invariant
            n == graph.structs().len(),
            i <= n,
            adj.len() == i,
            forall|j: int| 0 <= j < i ==> (#[trigger] adj@[j])@ == field_structs(graph.structs()[j].fields@),
        decreases n - i,
    {
        adj.push(field_struct_list(&graph.struct_type(i).fields));
        i = i + 1;
    }
    proof {
        assert forall|j: int| 0 <= j < adj.len() implies #[trigger] adj.deep_view()[j] == field_adj(graph)[j] by {
            assert(adj.deep_view()[j] == adj@[j].deep_view());
            assert(adj@[j].deep_view() =~= adj@[j]@);
        }
        assert(adj.deep_view() =~= field_adj(graph));
    }
    adj
}

/// The structs directly needed by the nodes that `roots` depend on and by
/// `extra`, possibly with repetitions.
fn collect_structs(graph: &ExprGraph, roots: &Vec<usize>, extra: &Vec<Type>) -> (r: Vec<usize>)
    requires
        graph.wf(),
        forall|i: int| 0 <= i < roots.len() ==> #[trigger] roots[i] < graph.nodes().len(),
    ensures
        forall|s: usize| #[trigger] r@.contains(s) <==> is_collected(graph, roots@, extra@, s),
{
    proof {
        lemma_pred_adj_dag(graph);
    }
    let adj = dependency_lists(graph);
    let order = dfs_postorder(&adj, roots);
    let mut r: Vec<usize> = Vec::new();
    let mut i: usize = 0;
    while i < order.len()
        invariant
            graph.wf(),
            adj.deep_view() == dep_adj(graph),
            adj.len() == graph.nodes().len(),
            i <= order.len(),
            forall|j: int| 0 <= j < order.len() ==> #[trigger] order@[j] < graph.nodes().len(),
            forall|s: usize|
                #[trigger] r@.contains(s) <==> exists|j: int|
                    0 <= j < i && #[trigger] struct_of(graph.ty_at(order@[j] as int)) == Some(s),
        decreases order.len() - i,
    {
        let x = order[i];
        let ghost r0 = r@;
        let ty = graph.ty_of(x);
        if let Some(s) = get_struct_type(&ty) {
            r.push(s);
            proof {
                assert forall|t: usize| #[trigger] r@.contains(t) <==> exists|j: int|
                    0 <= j < i + 1 && #[trigger] struct_of(graph.ty_at(order@[j] as int)) == Some(t) by {
                    if r@.contains(t) && t != s {
                        let q = choose|q: int| 0 <= q < r@.len() && r@[q] == t;
                        assert(r0[q] == t);
                        assert(r0.contains(t));
                    }
                    if t == s {
                        assert(r@[r0.len() as int] == s);
                    }
                    if exists|j: int| 0 <= j < i + 1 && #[trigger] struct_of(graph.ty_at(order@[j] as int)) == Some(t) {
                        let j = choose|j: int| 0 <= j < i + 1 && #[trigger] struct_of(graph.ty_at(order@[j] as int)) == Some(t);
                        if j < i {
                            assert(r0.contains(t));
                            let q = choose|q: int| 0 <= q < r0.len() && r0[q] == t;
                            assert(r@[q] == t);
                        }
                    }
                }
            }
        } else {
            proof {
                assert forall|t: usize| #[trigger] r@.contains(t) <==> exists|j: int|
                    0 <= j < i + 1 && #[trigger] struct_of(graph.ty_at(order@[j] as int)) == Some(t) by {
                    if exists|j: int| 0 <= j < i + 1 && #[trigger] struct_of(graph.ty_at(order@[j] as int)) == Some(t) {
                        let j = choose|j: int| 0 <= j < i + 1 && #[trigger] struct_of(graph.ty_at(order@[j] as int)) == Some(t);
                        assert(j < i);
                    }
                }
            }
        }
        i = i + 1;
    }
    let ghost from_nodes = r@;
    let mut e: usize = 0;
    while e < extra.len()
        invariant
            e <= extra.len(),
            forall|s: usize|
                #[trigger] r@.contains(s) <==> (from_nodes.contains(s) || exists|j: int|
                    0 <= j < e && #[trigger] struct_of(extra@[j]) == Some(s)),
        decreases extra.len() - e,
    {
        let ghost r0 = r@;
        if let Some(s) = get_struct_type(&extra[e]) {
            r.push(s);
            proof {
                assert forall|t: usize| #[trigger] r@.contains(t) <==> (from_nodes.contains(t) || exists|j: int|
                    0 <= j < e + 1 && #[trigger] struct_of(extra@[j]) == Some(t)) by {
                    if r@.contains(t) && t != s {
                        let q = choose|q: int| 0 <= q < r@.len() && r@[q] == t;
                        assert(r0[q] == t);
                        assert(r0.contains(t));
                    }
                    if t == s {
                        assert(r@[r0.len() as int] == s);
                    }
                    if r0.contains(t) {
                        let q = choose|q: int| 0 <= q < r0.len() && r0[q] == t;
                        assert(r@[q] == t);
                    }
                    if exists|j: int| 0 <= j < e + 1 && #[trigger] struct_of(extra@[j]) == Some(t) {
                        let j = choose|j: int| 0 <= j < e + 1 && #[trigger] struct_of(extra@[j]) == Some(t);
                        if j < e {
                            assert(r0.contains(t));
                        }
                    }
                }
            }
        } else {
            proof {
                assert forall|t: usize| #[trigger] r@.contains(t) <==> (from_nodes.contains(t) || exists|j: int|
                    0 <= j < e + 1 && #[trigger] struct_of(extra@[j]) == Some(t)) by {
                    if exists|j: int| 0 <= j < e + 1 && #[trigger] struct_of(extra@[j]) == Some(t) {
                        let j = choose|j: int| 0 <= j < e + 1 && #[trigger] struct_of(extra@[j]) == Some(t);
                        assert(j < e);
                    }
                }
            }
        }
        e = e + 1;
    }
    proof {
        assert forall|s: usize| #[trigger] r@.contains(s) implies is_collected(graph, roots@, extra@, s) by {
            if from_nodes.contains(s) {
                let j = choose|j: int| 0 <= j < order.len() && #[trigger] struct_of(graph.ty_at(order@[j] as int)) == Some(s);
                let x = order@[j] as int;
                assert(order@.contains((x as int) as usize));
            }
        }
        assert forall|s: usize| is_collected(graph, roots@, extra@, s) implies #[trigger] r@.contains(s) by {
            if exists|x: int|
                0 <= x < graph.nodes().len() && #[trigger] struct_of(graph.ty_at(x)) == Some(s) && exists|r: int|
                    0 <= r < roots.len() && #[trigger] reaches(dep_adj(graph), roots[r] as int, x) {
                let x = choose|x: int|
                    0 <= x < graph.nodes().len() && #[trigger] struct_of(graph.ty_at(x)) == Some(s) && exists|r: int|
                        0 <= r < roots.len() && #[trigger] reaches(dep_adj(graph), roots[r] as int, x);
                assert(order@.contains(x as usize));
                let j = choose|j: int| 0 <= j < order.len() && order@[j] == x as usize;
                assert(struct_of(graph.ty_at(order@[j] as int)) == Some(s));
                assert(from_nodes.contains(s));
            }
        }
    }
    r
}

/// The struct definitions that a shader needs, in an order in which every
/// struct comes after the structs of its fields, each with its emitted name.
#[derive(Debug)]
pub struct StructRegistry {
    defs: Vec<usize>,
    ids: Vec<Option<usize>>,
}

impl StructRegistry {
    /// The struct indices in emission order.
    pub closed spec fn defs_view(&self) -> Seq<usize> {
        self.defs@
    }

    /// The position of struct `s` in emission order, if it is registered.
    pub closed spec fn position(&self, s: usize) -> Option<usize> {
        self.ids@[s as int]
    }

    /// Each registered struct is listed exactly once, at its position, and
    /// every listed struct belongs to `graph`.
    pub open spec fn lists_each_once(&self, graph: &ExprGraph) -> bool {
        &&& forall|p: int, q: int| 0 <= p < q < self.defs_view().len() ==> self.defs_view()[p] != self.defs_view()[q]
        &&& forall|p: int|
            0 <= p < self.defs_view().len() ==> #[trigger] self.defs_view()[p] < graph.structs().len()
                && self.position(self.defs_view()[p]) == Some(p as usize)
        &&& forall|s: usize|
            s < graph.structs().len() ==> (#[trigger] self.position(s) matches Some(p) ==> p < self.defs_view().len()
                && self.defs_view()[p as int] == s)
    }

    /// A registry that belongs to `graph` lists each registered struct
    /// exactly once, at its position.
    pub proof fn lemma_lists_each_once(&self, graph: &ExprGraph)
        requires
            self.wf(graph),
        ensures
            self.lists_each_once(graph),
    {
        assert(self.defs@.len() == self.defs.len());
        assert forall|p: int, q: int| 0 <= p < q < self.defs_view().len() implies self.defs_view()[p]
            != self.defs_view()[q] by {
            assert(self.ids@[self.defs@[p] as int] == Some(p as usize));
            assert(self.ids@[self.defs@[q] as int] == Some(q as usize));
        }
        assert forall|s: usize| s < graph.structs().len() implies (#[trigger] self.position(s) matches Some(p)
            ==> p < self.defs_view().len() && self.defs_view()[p as int] == s) by {
            assert(self.ids@[s as int] == self.ids@[s as int]);
        }
    }

    /// The registry belongs to `graph`: positions and emission order agree.
    pub closed spec fn wf(&self, graph: &ExprGraph) -> bool {
        &&& self.ids@.len() == graph.structs().len()
        &&& forall|p: int|
            0 <= p < self.defs@.len() ==> #[trigger] self.defs@[p] < graph.structs().len()
                && self.ids@[self.defs@[p] as int] == Some(p as usize)
        &&& forall|s: int|
            0 <= s < self.ids@.len() ==> (#[trigger] self.ids@[s] matches Some(p) ==> p
                < self.defs@.len() && self.defs@[p as int] == s)
    }

    /// Registers the structs that the nodes `roots` depend on need, those that
    /// the `extra` types need, and all structs that their fields need.
    pub fn new(graph: &ExprGraph, roots: &Vec<usize>, extra: &Vec<Type>) -> (reg: Self)
        requires
            graph.wf(),
            forall|i: int| 0 <= i < roots.len() ==> #[trigger] roots[i] < graph.nodes().len(),
            forall|j: int| 0 <= j < extra.len() ==> type_refs_below(#[trigger] extra@[j], graph.structs().len() as int),
        ensures
            reg.built_for(graph, roots@, extra@),
            reg.wf(graph),
            forall|s: usize|
                s < graph.structs().len() ==> ((#[trigger] reg.position(s) is Some) <==> exists|c: usize|
                    #[trigger] is_collected(graph, roots@, extra@, c) && reaches(
                        field_adj(graph),
                        c as int,
                        s as int,
                    )),
            forall|p: int, k: int|
                0 <= p < reg.defs_view().len() && 0 <= k < field_adj(graph)[reg.defs_view()[p] as int].len()
                    ==> (#[trigger] reg.position(field_adj(graph)[reg.defs_view()[p] as int][k]) matches Some(q)
                    && q < p),
    {
        proof {
            lemma_field_adj_dag(graph);
        }
        let adj = struct_adjacency(graph);
        let collected = collect_structs(graph, roots, extra);
        proof {
            assert forall|i: int| 0 <= i < collected.len() implies #[trigger] collected@[i] < adj.len() by {
                assert(collected@.contains(collected@[i]));
                let s = collected@[i];
                if exists|x: int|
                    0 <= x < graph.nodes().len() && #[trigger] struct_of(graph.ty_at(x)) == Some(s) && exists|r: int|
                        0 <= r < roots.len() && #[trigger] reaches(dep_adj(graph), roots[r] as int, x) {
                    let x = choose|x: int|
                        0 <= x < graph.nodes().len() && #[trigger] struct_of(graph.ty_at(x)) == Some(s) && exists|r: int|
                            0 <= r < roots.len() && #[trigger] reaches(dep_adj(graph), roots[r] as int, x);
                    crate::dag::lemma_ty_at_refs(graph, x);
                    lemma_struct_of_below(graph.ty_at(x), graph.structs().len() as int);
                } else {
                    let j = choose|j: int| 0 <= j < extra@.len() && #[trigger] struct_of(extra@[j]) == Some(s);
                    lemma_struct_of_below(extra@[j], graph.structs().len() as int);
                }
            }
        }
        let defs = dfs_postorder(&adj, &collected);
        let n = graph.num_structs();
        let mut ids: Vec<Option<usize>> = Vec::new();
        let mut i: usize = 0;
        while i < n
            invariant
                i <= n,
                ids.len() == i,
                forall|j: int| 0 <= j < i ==> #[trigger] ids@[j] is None,
            decreases n - i,
        {
            ids.push(None);
            i = i + 1;
        }
        let mut p: usize = 0;
        while p < defs.len()
            invariant
                n == graph.structs().len(),
                ids.len() == n,
                p <= defs.len(),
                forall|a: int, b: int| 0 <= a < b < defs.len() ==> defs@[a] != defs@[b],
                forall|a: int| 0 <= a < defs.len() ==> #[trigger] defs@[a] < n,
                forall|a: int| 0 <= a < p ==> #[trigger] ids@[defs@[a] as int] == Some(a as usize),
                forall|s: int|
                    0 <= s < n ==> (#[trigger] ids@[s] matches Some(q) ==> q < p && defs@[q as int] == s),
            decreases defs.len() - p,
        {
            let ghost ids0 = ids@;
            ids.set(defs[p], Some(p));
            proof {
                assert forall|a: int| 0 <= a < p + 1 implies #[trigger] ids@[defs@[a] as int] == Some(a as usize) by {
                    if a < p {
                        assert(defs@[a] != defs@[p as int]);
                    }
                }
            }
            p = p + 1;
        }
        let reg = StructRegistry { defs, ids };
        proof {
            reg.lemma_lists_each_once(graph);
            let g = field_adj(graph);
            assert forall|s: usize|
                s < graph.structs().len() implies ((#[trigger] reg.position(s) is Some) <==> exists|c: usize|
                    #[trigger] is_collected(graph, roots@, extra@, c) && reaches(g, c as int, s as int)) by {
                let si = s as int;
                if reg.position(s) is Some {
                    assert(defs@.contains((si as int) as usize));
                    let r = choose|r: int| 0 <= r < collected.len() && #[trigger] reaches(g, collected@[r] as int, si);
                    assert(collected@.contains(collected@[r]));
                }
                if exists|c: usize| #[trigger] is_collected(graph, roots@, extra@, c) && reaches(g, c as int, s as int) {
                    let c = choose|c: usize| #[trigger] is_collected(graph, roots@, extra@, c) && reaches(g, c as int, s as int);
                    assert(collected@.contains(c));
                    let r = choose|r: int| 0 <= r < collected.len() && collected@[r] == c;
                    assert(reaches(g, collected@[r] as int, si));
                    assert(defs@.contains((si as int) as usize));
                    let q = choose|q: int| 0 <= q < defs.len() && defs@[q] == s;
                    assert(ids@[defs@[q] as int] == Some(q as usize));
                }
            }
            assert forall|p: int, k: int|
                0 <= p < reg.defs_view().len() && 0 <= k < g[reg.defs_view()[p] as int].len()
                    implies (#[trigger] reg.position(g[reg.defs_view()[p] as int][k]) matches Some(q)
                    && q < p) by {
                assert(crate::gen::topo::succ_before(g, defs@, p, k));
                let j = choose|j: int| 0 <= j < p && defs@[j] == g[defs@[p] as int][k];
                assert(ids@[defs@[j] as int] == Some(j as usize));
            }
        }
        reg
    }

    /// The registry holds exactly the structs that `roots` and `extra` need,
    /// and every struct after the structs of its fields.
    pub open spec fn built_for(&self, graph: &ExprGraph, roots: Seq<usize>, extra: Seq<Type>) -> bool {
        &&& self.wf(graph)
        &&& self.lists_each_once(graph)
        &&& forall|s: usize|
            s < graph.structs().len() ==> ((#[trigger] self.position(s) is Some) <==> exists|c: usize|
                #[trigger] is_collected(graph, roots, extra, c) && reaches(field_adj(graph), c as int, s as int))
        &&& forall|p: int, k: int|
            0 <= p < self.defs_view().len() && 0 <= k < field_adj(graph)[self.defs_view()[p] as int].len()
                ==> (#[trigger] self.position(field_adj(graph)[self.defs_view()[p] as int][k]) matches Some(q) && q
                < p)
    }

    /// Whether struct `ty` is registered.
    pub fn is_registered(&self, graph: &ExprGraph, ty: usize) -> (r: bool)
        requires
            self.wf(graph),
            ty < graph.structs().len(),
        ensures
            r == self.position(ty) is Some,
    {
        self.ids[ty].is_some()
    }

    /// The name under which struct `ty` is declared.
    pub fn name(&self, graph: &ExprGraph, ty: usize) -> (r: String)
        requires
            self.wf(graph),
            ty < graph.structs().len(),
            self.position(ty) is Some,
        ensures
            r@ == struct_name_text(graph.structs()[ty as int].name@, self.position(ty)->0 as nat),
    {
        let p = match self.ids[ty] {
            Some(p) => p,
            None => 0,
        };
        struct_name(graph.struct_type(ty).name.as_str(), p)
    }

    /// The registered structs in emission order, each with its name.
    pub fn defs(&self, graph: &ExprGraph) -> (r: Vec<(String, usize)>)
        requires
            self.wf(graph),
        ensures
            r.len() == self.defs_view().len(),
            forall|p: int|
                0 <= p < r.len() ==> (#[trigger] r@[p]).1 == self.defs_view()[p] && r@[p].1 < graph.structs().len()
                    && r@[p].0@ == struct_name_text(graph.structs()[self.defs_view()[p] as int].name@, p as nat)
                    && self.position(r@[p].1) == Some(p as usize),
    {
        proof {
            self.lemma_lists_each_once(graph);
        }
        let mut r: Vec<(String, usize)> = Vec::new();
        let mut p: usize = 0;
        while p < self.defs.len()
            invariant
                self.wf(graph),
                p <= self.defs.len(),
                r.len() == p,
                forall|q: int|
                    0 <= q < p ==> (#[trigger] r@[q]).1 == self.defs@[q] && r@[q].0@ == struct_name_text(
                        graph.structs()[self.defs@[q] as int].name@,
                        q as nat,
                    ),
            decreases self.defs.len() - p,
        {
            let s = self.defs[p];
            r.push((struct_name(graph.struct_type(s).name.as_str(), p), s));
            p = p + 1;
        }
        r
    }
}

/// Distinct registered structs are declared under distinct names, even
/// where the structs' own names coincide.
pub proof fn lemma_registered_names_distinct(reg: &StructRegistry, graph: &ExprGraph, s: usize, t: usize)
    requires
        reg.wf(graph),
        s < graph.structs().len(),
        t < graph.structs().len(),
        s != t,
        reg.position(s) is Some,
        reg.position(t) is Some,
    ensures
        struct_name_text(graph.structs()[s as int].name@, reg.position(s)->0 as nat) != struct_name_text(
            graph.structs()[t as int].name@,
            reg.position(t)->0 as nat,
        ),
{
    let p = reg.position(s)->0;
    let q = reg.position(t)->0;
    assert(reg.defs_view()[p as int] == s);
    assert(reg.defs_view()[q as int] == t);
    if struct_name_text(graph.structs()[s as int].name@, p as nat) == struct_name_text(
        graph.structs()[t as int].name@,
        q as nat,
    ) {
        lemma_struct_name_text_injective(graph.structs()[s as int].name@, p as nat, graph.structs()[t as int].name@, q as nat);
    }
}

/// A field whose type needs struct `s` puts `s` among the struct's field
/// edges.
proof fn lemma_field_structs_has(fields: Seq<(String, Type)>, f: int, s: usize)
    requires
        0 <= f < fields.len(),
        struct_of(fields[f].1) == Some(s),
    ensures
        exists|k: int| 0 <= k < field_structs(fields).len() && field_structs(fields)[k] == s,
    decreases fields.len(),
{
    let rest = field_structs(fields.drop_last());
    if f == fields.len() - 1 {
        assert(field_structs(fields) == rest.push(s));
        assert(field_structs(fields)[rest.len() as int] == s);
    } else {
        assert(fields.drop_last()[f] == fields[f]);
        lemma_field_structs_has(fields.drop_last(), f, s);
        let k = choose|k: int| 0 <= k < rest.len() && rest[k] == s;
        match struct_of(fields.last().1) {
            Some(id) => {
                assert(field_structs(fields) == rest.push(id));
                assert(field_structs(fields)[k] == s);
            },
            None => {},
        }
    }
}

/// Every struct that a shader needs is registered: the struct type of a
/// node that the roots depend on, or of an extra type, and the element
/// struct of such an array type; and likewise the struct, or array element
/// struct, of each field of a registered struct, which comes before it.
pub proof fn lemma_needed_structs_registered(
    reg: &StructRegistry,
    graph: &ExprGraph,
    roots: Seq<usize>,
    extra: Seq<Type>,
)
    requires
        graph.wf(),
        reg.built_for(graph, roots, extra),
    ensures
        forall|x: int, r: int, s: usize|
            0 <= x < graph.nodes().len() && 0 <= r < roots.len() && #[trigger] reaches(dep_adj(graph), roots[r] as int, x)
                && (graph.ty_at(x) == Type::Struct(s) || (graph.ty_at(x) matches Type::Array(e, _) && *e
                == Type::Struct(s))) ==> s < graph.structs().len() && #[trigger] reg.position(s) is Some,
        forall|j: int, s: usize|
            #![trigger extra[j], reg.position(s)]
            0 <= j < extra.len() && s < graph.structs().len() && (extra[j] == Type::Struct(s) || (
            extra[j] matches Type::Array(e, _) && *e == Type::Struct(s))) ==> reg.position(s) is Some,
        forall|t: usize, f: int, s: usize|
            #![trigger graph.structs()[t as int].fields@[f], reg.position(s)]
            t < graph.structs().len() && reg.position(t) is Some && 0 <= f < graph.structs()[t as int].fields@.len()
                && (graph.structs()[t as int].fields@[f].1 == Type::Struct(s) || (
            graph.structs()[t as int].fields@[f].1 matches Type::Array(e, _) && *e == Type::Struct(s)))
                ==> reg.position(s) is Some && reg.position(s)->0 < reg.position(t)->0,
{
    let g = field_adj(graph);
    assert forall|x: int, r: int, s: usize|
        0 <= x < graph.nodes().len() && 0 <= r < roots.len() && #[trigger] reaches(dep_adj(graph), roots[r] as int, x)
            && (graph.ty_at(x) == Type::Struct(s) || (graph.ty_at(x) matches Type::Array(e, _) && *e == Type::Struct(
            s,
        ))) implies s < graph.structs().len() && #[trigger] reg.position(s) is Some by {
        crate::dag::lemma_ty_at_refs(graph, x);
        assert(type_refs_below(graph.ty_at(x), graph.structs().len() as int));
        if let Type::Array(e, _) = graph.ty_at(x) {
            assert(type_refs_below(*e, graph.structs().len() as int));
        }
        assert(s < graph.structs().len());
        assert(struct_of(graph.ty_at(x)) == Some(s));
        assert(is_collected(graph, roots, extra, s));
        lemma_reaches_refl(g, s as int);
        assert(reaches(g, s as int, s as int));
    }
    assert forall|j: int, s: usize|
        #![trigger extra[j], reg.position(s)]
        0 <= j < extra.len() && s < graph.structs().len() && (extra[j] == Type::Struct(s) || (extra[j] matches Type::Array(
            e,
            _,
        ) && *e == Type::Struct(s))) implies reg.position(s) is Some by {
        assert(struct_of(extra[j]) == Some(s));
        assert(is_collected(graph, roots, extra, s));
        lemma_reaches_refl(g, s as int);
    }
    assert forall|t: usize, f: int, s: usize|
        #![trigger graph.structs()[t as int].fields@[f], reg.position(s)]
        t < graph.structs().len() && reg.position(t) is Some && 0 <= f < graph.structs()[t as int].fields@.len() && (
        graph.structs()[t as int].fields@[f].1 == Type::Struct(s) || (graph.structs()[t as int].fields@[f].1 matches Type::Array(
            e,
            _,
        ) && *e == Type::Struct(s))) implies reg.position(s) is Some && reg.position(s)->0 < reg.position(t)->0 by {
        let fields = graph.structs()[t as int].fields@;
        assert(struct_of(fields[f].1) == Some(s));
        lemma_field_structs_has(fields, f, s);
        let k = choose|k: int| 0 <= k < field_structs(fields).len() && field_structs(fields)[k] == s;
        let p = reg.position(t)->0 as int;
        assert(reg.defs_view()[p] == t);
        assert(g[reg.defs_view()[p] as int] == field_structs(fields));
        assert(g[reg.defs_view()[p] as int][k] == s);
    }
}

} // verus!
