use vstd::prelude::*;

use super::ty::{type_refs_below, BuiltInType, StructType, Type};

verus! {

#[derive(Debug, Copy, Clone, PartialEq, Eq, Structural)]
pub enum BinaryOp {
    Add,
    Sub,
    Mul,
    Div,
    Eq,
    And,
    Or,
}

/// A user-defined function: its name, parameters, and the node of its result.
#[derive(Debug)]
pub struct FuncDef {
    pub name: String,
    pub params: Vec<(String, Type)>,
    pub result: usize,
}

/// A node of an expression graph. Operands are indices of earlier nodes of the
/// same graph.
#[derive(Debug)]
pub enum Expr {
    Arg { name: String, ty: Type },
    ScalarLiteral { value: String, ty: BuiltInType },
    StructLiteral { args: Vec<usize>, ty: usize },
    Binary { left: usize, op: BinaryOp, right: usize, ty: Type },
    CallFuncDef { def: FuncDef, args: Vec<usize> },
    CallBuiltIn { name: String, args: Vec<usize>, ty: Type },
    Field { base: usize, name: String, ty: Type },
    Branch { cond: usize, yes: usize, no: usize, ty: Type },
}

impl Expr {
    /// The operands of the node, in order.
    pub open spec fn preds(self) -> Seq<usize> {
        match self {
            Expr::Arg { .. } => seq![],
            Expr::ScalarLiteral { .. } => seq![],
            Expr::StructLiteral { args, .. } => args@,
            Expr::Binary { left, right, .. } => seq![left, right],
            Expr::CallFuncDef { args, .. } => args@,
            Expr::CallBuiltIn { args, .. } => args@,
            Expr::Field { base, .. } => seq![base],
            Expr::Branch { cond, yes, no, .. } => seq![cond, yes, no],
        }
    }

    /// The operands, followed by the result node of a called function.
    pub open spec fn deps(self) -> Seq<usize> {
        match self {
            Expr::CallFuncDef { def, args } => args@.push(def.result),
            _ => self.preds(),
        }
    }

    /// The type recorded in the node itself; a function call takes the type
    /// of the function's result instead.
    pub open spec fn own_ty(self) -> Type {
        match self {
            Expr::Arg { ty, .. } => ty,
            Expr::ScalarLiteral { ty, .. } => Type::BuiltIn(ty),
            Expr::StructLiteral { ty, .. } => Type::Struct(ty),
            Expr::Binary { ty, .. } => ty,
            Expr::CallFuncDef { .. } => Type::BuiltIn(BuiltInType::F32),
            Expr::CallBuiltIn { ty, .. } => ty,
            Expr::Field { ty, .. } => ty,
            Expr::Branch { ty, .. } => ty,
        }
    }

    /// All dependencies of the node lie below `n`.
    pub open spec fn deps_below(self, n: int) -> bool {
        forall|k: int| 0 <= k < self.deps().len() ==> #[trigger] self.deps()[k] < n
    }

    /// All struct indices in the node's types lie below `n`.
    pub open spec fn types_below(self, n: int) -> bool {
        type_refs_below(self.own_ty(), n)
    }

    /// The operands of the node, in order.
    pub fn predecessors(&self) -> (r: Vec<usize>)
        ensures
            r@ == self.preds(),
    {
        match self {
            Expr::Arg { .. } => Vec::new(),
            Expr::ScalarLiteral { .. } => Vec::new(),
            Expr::StructLiteral { args, .. } => args.clone(),
            Expr::Binary { left, right, .. } => vec![*left, *right],
            Expr::CallFuncDef { args, .. } => args.clone(),
            Expr::CallBuiltIn { args, .. } => args.clone(),
            Expr::Field { base, .. } => vec![*base],
            Expr::Branch { cond, yes, no, .. } => vec![*cond, *yes, *no],
        }
    }

    /// The operands, followed by the result node of a called function.
    pub fn dependencies(&self) -> (r: Vec<usize>)
        ensures
            r@ == self.deps(),
    {
        let mut r = self.predecessors();
        if let Expr::CallFuncDef { def, .. } = self {
            r.push(def.result);
        }
        r
    }

    /// The type of the node, looking through function calls in `graph`.
    pub fn ty(&self, graph: &ExprGraph) -> (r: Type)
        requires
            graph.wf(),
            self.deps_below(graph.nodes().len() as int),
        ensures
            r == graph.ty_of_expr(*self),
    {
        match self {
            Expr::CallFuncDef { def, .. } => {
                assert(self.deps()[self.deps().len() - 1] == def.result);
                graph.ty_of(def.result)
            },
            Expr::Arg { ty, .. } => ty.clone(),
            Expr::ScalarLiteral { ty, .. } => Type::BuiltIn(*ty),
            Expr::StructLiteral { ty, .. } => Type::Struct(*ty),
            Expr::Binary { ty, .. } => ty.clone(),
            Expr::CallBuiltIn { ty, .. } => ty.clone(),
            Expr::Field { ty, .. } => ty.clone(),
            Expr::Branch { ty, .. } => ty.clone(),
        }
    }
}

/// An expression graph: nodes refer only to earlier nodes, and struct
/// definitions refer only to earlier struct definitions, so that the graph
/// holds no cycle.
pub struct ExprGraph {
    nodes: Vec<Expr>,
    structs: Vec<StructType>,
}

impl ExprGraph {
    pub closed spec fn nodes(&self) -> Seq<Expr> {
        self.nodes@
    }

    pub closed spec fn structs(&self) -> Seq<StructType> {
        self.structs@
    }

    /// Every field type of struct `i` refers only to structs before `i`.
    pub open spec fn struct_ok(&self, i: int) -> bool {
        forall|f: int|
            0 <= f < self.structs()[i].fields@.len() ==> type_refs_below(
                #[trigger] self.structs()[i].fields@[f].1,
                i,
            )
    }

    pub open spec fn wf(&self) -> bool {
        &&& self.nodes().len() <= usize::MAX
        &&& forall|i: int| 0 <= i < self.nodes().len() ==> #[trigger] self.nodes()[i].deps_below(i)
        &&& forall|i: int|
            0 <= i < self.nodes().len() ==> #[trigger] self.nodes()[i].types_below(
                self.structs().len() as int,
            )
        &&& forall|i: int| 0 <= i < self.structs().len() ==> #[trigger] self.struct_ok(i)
    }

    /// The type of node `i`: the type recorded in it, or for a function call
    /// the type of the function's result.
    pub open spec fn ty_at(&self, i: int) -> Type
        decreases i,
    {
        if 0 <= i < self.nodes().len() {
            match self.nodes()[i] {
                Expr::CallFuncDef { def, .. } => if 0 <= def.result < i {
                    self.ty_at(def.result as int)
                } else {
                    Type::BuiltIn(BuiltInType::F32)
                },
                e => e.own_ty(),
            }
        } else {
            Type::BuiltIn(BuiltInType::F32)
        }
    }

    /// The type of a node `e` of this graph.
    pub open spec fn ty_of_expr(&self, e: Expr) -> Type {
        match e {
            Expr::CallFuncDef { def, .. } => self.ty_at(def.result as int),
            _ => e.own_ty(),
        }
    }

    /// An empty graph.
    pub fn new() -> (g: Self)
        ensures
            g.wf(),
            g.nodes() == Seq::<Expr>::empty(),
            g.structs() == Seq::<StructType>::empty(),
    {
        ExprGraph { nodes: Vec::new(), structs: Vec::new() }
    }

    /// The number of nodes.
    pub fn len(&self) -> (r: usize)
        ensures
            r == self.nodes().len(),
    {
        self.nodes.len()
    }

    /// The number of struct definitions.
    pub fn num_structs(&self) -> (r: usize)
        ensures
            r == self.structs().len(),
    {
        self.structs.len()
    }

    /// Node `i`.
    pub fn node(&self, i: usize) -> (r: &Expr)
        requires
            i < self.nodes().len(),
        ensures
            *r == self.nodes()[i as int],
    {
        &self.nodes[i]
    }

    /// Struct definition `i`.
    pub fn struct_type(&self, i: usize) -> (r: &StructType)
        requires
            i < self.structs().len(),
        ensures
            *r == self.structs()[i as int],
    {
        &self.structs[i]
    }

    /// Adds a struct definition whose fields refer only to existing structs,
    /// and returns its index.
    pub fn add_struct(&mut self, ty: StructType) -> (id: usize)
        requires
            old(self).wf(),
            old(self).structs().len() < usize::MAX,
            forall|f: int|
                0 <= f < ty.fields@.len() ==> type_refs_below(
                    #[trigger] ty.fields@[f].1,
                    old(self).structs().len() as int,
                ),
        ensures
            final(self).wf(),
            id == old(self).structs().len(),
            final(self).structs() == old(self).structs().push(ty),
            final(self).nodes() == old(self).nodes(),
    {
        let id = self.structs.len();
        self.structs.push(ty);
        proof {
            assert forall|i: int| 0 <= i < self.structs().len() implies #[trigger] self.struct_ok(i) by {
                if i < id {
                    assert(old(self).struct_ok(i));
                    assert(self.structs()[i] == old(self).structs()[i]);
                }
            }
            assert forall|i: int| 0 <= i < self.nodes().len() implies #[trigger] self.nodes()[i].types_below(
                self.structs().len() as int,
            ) by {
                assert(old(self).nodes()[i].types_below(old(self).structs().len() as int));
                lemma_type_refs_mono(self.nodes()[i].own_ty(), id as int, self.structs().len() as int);
            }
        }
        id
    }

    /// Adds a node whose operands are existing nodes, and returns its index.
    pub fn add(&mut self, e: Expr) -> (id: usize)
        requires
            old(self).wf(),
            old(self).nodes().len() < usize::MAX,
            e.deps_below(old(self).nodes().len() as int),
            e.types_below(old(self).structs().len() as int),
        ensures
            final(self).wf(),
            id == old(self).nodes().len(),
            final(self).nodes() == old(self).nodes().push(e),
            final(self).structs() == old(self).structs(),
    {
        let id = self.nodes.len();
        self.nodes.push(e);
        proof {
            assert forall|i: int| 0 <= i < self.nodes().len() implies #[trigger] self.nodes()[i].deps_below(i) by {
                if i < id {
                    assert(old(self).nodes()[i].deps_below(i));
                }
            }
            assert forall|i: int| 0 <= i < self.nodes().len() implies #[trigger] self.nodes()[i].types_below(
                self.structs().len() as int,
            ) by {
                if i < id {
                    assert(old(self).nodes()[i].types_below(old(self).structs().len() as int));
                }
            }
            assert forall|i: int| 0 <= i < self.structs().len() implies #[trigger] self.struct_ok(i) by {
                assert(old(self).struct_ok(i));
            }
        }
        id
    }

    /// The type of node `i`, looking through function calls.
    pub fn ty_of(&self, i: usize) -> (r: Type)
        requires
            self.wf(),
            i < self.nodes().len(),
        ensures
            r == self.ty_at(i as int),
        decreases i,
    {
        match &self.nodes[i] {
            Expr::CallFuncDef { def, .. } => {
                assert(self.nodes()[i as int].deps_below(i as int));
                let ghost d = self.nodes()[i as int].deps();
                assert(d[d.len() - 1] == def.result);
                self.ty_of(def.result)
            },
            Expr::Arg { ty, .. } => ty.clone(),
            Expr::ScalarLiteral { ty, .. } => Type::BuiltIn(*ty),
            Expr::StructLiteral { ty, .. } => Type::Struct(*ty),
            Expr::Binary { ty, .. } => ty.clone(),
            Expr::CallBuiltIn { ty, .. } => ty.clone(),
            Expr::Field { ty, .. } => ty.clone(),
            Expr::Branch { ty, .. } => ty.clone(),
        }
    }
}

/// The type of every node of a well-formed graph refers only to its structs.
pub proof fn lemma_ty_at_refs(graph: &ExprGraph, i: int)
    requires
        graph.wf(),
        0 <= i < graph.nodes().len(),
    ensures
        type_refs_below(graph.ty_at(i), graph.structs().len() as int),
    decreases i,
{
    assert(graph.nodes()[i].types_below(graph.structs().len() as int));
    assert(graph.nodes()[i].deps_below(i));
    if let Expr::CallFuncDef { def, args } = graph.nodes()[i] {
        let d = graph.nodes()[i].deps();
        assert(d[d.len() - 1] == def.result);
        lemma_ty_at_refs(graph, def.result as int);
    }
}

/// A bound on struct indices can be raised.
pub proof fn lemma_type_refs_mono(ty: Type, n: int, m: int)
    requires
        type_refs_below(ty, n),
        n <= m,
    ensures
        type_refs_below(ty, m),
    decreases ty,
{
    if let Type::Array(elem, _) = ty {
        lemma_type_refs_mono(*elem, n, m);
    }
}

} // verus!
