//! Samplers in shader code.

use vstd::prelude::*;

use crate::dag::{BuiltInType, Expr, ExprGraph, SamplerType, Type};

use super::{built_in2, Trace};

verus! {

/// A two-dimensional sampler of shader code.
#[derive(Debug, Copy, Clone)]
pub struct Sampler2(pub Trace);

impl Sampler2 {
    /// The type of a sampler.
    pub open spec fn spec_ty() -> Type {
        Type::BuiltIn(BuiltInType::Sampler(SamplerType::Sampler2d))
    }

    /// The type of a sampler.
    pub fn ty() -> (r: Type)
        ensures
            r == Self::spec_ty(),
    {
        Type::BuiltIn(BuiltInType::Sampler(SamplerType::Sampler2d))
    }

    /// The sampler argument or variable named `ident`.
    pub fn from_ident(graph: &mut ExprGraph, ident: &str) -> (r: Self)
        requires
            old(graph).wf(),
            old(graph).nodes().len() < usize::MAX,
        ensures
            final(graph).wf(),
            r.0.expr_id.0 == old(graph).nodes().len(),
            final(graph).nodes().len() == old(graph).nodes().len() + 1,
            final(graph).nodes().drop_last() == old(graph).nodes(),
            final(graph).nodes().last() matches Expr::Arg { name, ty } && name@ == ident@ && ty == Self::spec_ty(),
            final(graph).structs() == old(graph).structs(),
    {
        Sampler2(Trace::from_ident(graph, ident, Self::ty()))
    }

    /// The texel at `tex_coord`, a two-component vector: a call of the
    /// built-in `texture`, with four components.
    pub fn load(self, graph: &mut ExprGraph, tex_coord: Trace) -> (r: Trace)
        requires
            old(graph).wf(),
            old(graph).nodes().len() < usize::MAX,
            self.0.expr_id.0 < old(graph).nodes().len(),
            tex_coord.expr_id.0 < old(graph).nodes().len(),
        ensures
            final(graph).wf(),
            r.expr_id.0 == old(graph).nodes().len(),
            final(graph).nodes().len() == old(graph).nodes().len() + 1,
            final(graph).nodes().drop_last() == old(graph).nodes(),
            final(graph).nodes().last() matches Expr::CallBuiltIn { name, args, ty } && name@ == "texture"@
                && args@ == seq![self.0.expr_id.0, tex_coord.expr_id.0] && ty == Type::BuiltIn(BuiltInType::Vec4),
            final(graph).structs() == old(graph).structs(),
    {
        built_in2(graph, "texture", self.0, tex_coord, Type::BuiltIn(BuiltInType::Vec4))
    }
}

} // verus!
