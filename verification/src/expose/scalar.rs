//! Scalar values of shader code, typed by the Rust type that they stand
//! for.

use std::marker::PhantomData;

use vstd::prelude::*;

use crate::dag::{lemma_ty_at_refs, BinaryOp, BuiltInType, Expr, ExprGraph, Type};

use super::{binary, Trace};

verus! {

/// A scalar type: its values are scalars of a built-in type of the shading
/// language.
pub trait ScalarType: Copy + Sized {
    /// The built-in type of the scalars.
    spec fn spec_built_in_type() -> BuiltInType;

    /// The built-in type of the scalars.
    fn built_in_type() -> (r: BuiltInType)
        ensures
            r == Self::spec_built_in_type(),
    ;
}

/// A numerical scalar type.
pub trait NumType: ScalarType {

}

impl ScalarType for bool {
    open spec fn spec_built_in_type() -> BuiltInType {
        BuiltInType::Bool
    }

    fn built_in_type() -> (r: BuiltInType) {
        BuiltInType::Bool
    }
}

impl ScalarType for i32 {
    open spec fn spec_built_in_type() -> BuiltInType {
        BuiltInType::I32
    }

    fn built_in_type() -> (r: BuiltInType) {
        BuiltInType::I32
    }
}

impl ScalarType for u32 {
    open spec fn spec_built_in_type() -> BuiltInType {
        BuiltInType::U32
    }

    fn built_in_type() -> (r: BuiltInType) {
        BuiltInType::U32
    }
}

impl NumType for i32 {

}

impl NumType for u32 {

}

/// A scalar value of shader code: the expression that computes it.
#[derive(Debug)]
pub struct Scalar<T> {
    _phantom: PhantomData<T>,
    trace: Trace,
}

impl<T: ScalarType> Scalar<T> {
    /// The node of the expression.
    pub closed spec fn node(&self) -> usize {
        self.trace.expr_id.0
    }

    /// The scalar is a node of `graph` of its type.
    pub open spec fn in_graph(&self, graph: &ExprGraph) -> bool {
        &&& self.node() < graph.nodes().len()
        &&& graph.ty_at(self.node() as int) == Type::BuiltIn(T::spec_built_in_type())
    }

    /// The scalar computed by `trace`, which has its type.
    pub fn from_trace(graph: &ExprGraph, trace: Trace) -> (r: Self)
        requires
            trace.expr_id.0 < graph.nodes().len(),
            graph.ty_at(trace.expr_id.0 as int) == Type::BuiltIn(T::spec_built_in_type()),
        ensures
            r.node() == trace.expr_id.0,
            r.in_graph(graph),
    {
        Scalar { _phantom: PhantomData, trace }
    }

    /// The expression that computes the scalar.
    pub fn trace(&self) -> (r: Trace)
        ensures
            r.expr_id.0 == self.node(),
    {
        self.trace
    }

    /// Whether the scalar equals `right`.
    pub fn eq(&self, graph: &mut ExprGraph, right: &Self) -> (r: Scalar<bool>)
        requires
            old(graph).wf(),
            old(graph).nodes().len() < usize::MAX,
            self.in_graph(old(graph)),
            right.in_graph(old(graph)),
        ensures
            final(graph).wf(),
            r.node() == old(graph).nodes().len(),
            r.in_graph(final(graph)),
            final(graph).nodes() == old(graph).nodes().push(
                Expr::Binary { left: self.node(), op: BinaryOp::Eq, right: right.node(), ty: Type::BuiltIn(BuiltInType::Bool) },
            ),
            final(graph).structs() == old(graph).structs(),
    {
        let t = binary(graph, self.trace, BinaryOp::Eq, right.trace, Type::BuiltIn(BuiltInType::Bool));
        Scalar { _phantom: PhantomData, trace: t }
    }
}

impl Scalar<bool> {
    /// Both booleans.
    pub fn and(&self, graph: &mut ExprGraph, right: &Scalar<bool>) -> (r: Scalar<bool>)
        requires
            old(graph).wf(),
            old(graph).nodes().len() < usize::MAX,
            self.in_graph(old(graph)),
            right.in_graph(old(graph)),
        ensures
            final(graph).wf(),
            r.node() == old(graph).nodes().len(),
            r.in_graph(final(graph)),
            final(graph).nodes() == old(graph).nodes().push(
                Expr::Binary { left: self.node(), op: BinaryOp::And, right: right.node(), ty: Type::BuiltIn(BuiltInType::Bool) },
            ),
            final(graph).structs() == old(graph).structs(),
    {
        let t = binary(graph, self.trace, BinaryOp::And, right.trace, Type::BuiltIn(BuiltInType::Bool));
        Scalar { _phantom: PhantomData, trace: t }
    }

    /// The disjunction as this library builds it: the node it adds is a
    /// conjunction.
    pub fn or(&self, graph: &mut ExprGraph, right: &Scalar<bool>) -> (r: Scalar<bool>)
        requires
            old(graph).wf(),
            old(graph).nodes().len() < usize::MAX,
            self.in_graph(old(graph)),
            right.in_graph(old(graph)),
        ensures
            final(graph).wf(),
            r.node() == old(graph).nodes().len(),
            r.in_graph(final(graph)),
            final(graph).nodes() == old(graph).nodes().push(
                Expr::Binary { left: self.node(), op: BinaryOp::And, right: right.node(), ty: Type::BuiltIn(BuiltInType::Bool) },
            ),
            final(graph).structs() == old(graph).structs(),
    {
        let t = binary(graph, self.trace, BinaryOp::And, right.trace, Type::BuiltIn(BuiltInType::Bool));
        Scalar { _phantom: PhantomData, trace: t }
    }

    /// `yes` where the boolean holds, else `no`; both values have the same
    /// type, which is that of the result.
    pub fn branch(&self, graph: &mut ExprGraph, yes: Trace, no: Trace) -> (r: Trace)
        requires
            old(graph).wf(),
            old(graph).nodes().len() < usize::MAX,
            self.in_graph(old(graph)),
            yes.expr_id.0 < old(graph).nodes().len(),
            no.expr_id.0 < old(graph).nodes().len(),
            old(graph).ty_at(yes.expr_id.0 as int) == old(graph).ty_at(no.expr_id.0 as int),
        ensures
            final(graph).wf(),
            r.expr_id.0 == old(graph).nodes().len(),
            final(graph).nodes() == old(graph).nodes().push(
                Expr::Branch {
                    cond: self.node(),
                    yes: yes.expr_id.0,
                    no: no.expr_id.0,
                    ty: old(graph).ty_at(yes.expr_id.0 as int),
                },
            ),
            final(graph).ty_at(r.expr_id.0 as int) == old(graph).ty_at(yes.expr_id.0 as int),
            final(graph).structs() == old(graph).structs(),
    {
        let ty = graph.ty_of(yes.expr_id.0);
        proof {
            lemma_ty_at_refs(graph, yes.expr_id.0 as int);
        }
        let e = Expr::Branch { cond: self.trace.expr_id.0, yes: yes.expr_id.0, no: no.expr_id.0, ty };
        Trace::new(graph, e)
    }
}

} // verus!
