//! Expression graphs of the shading language and their types.

mod expr;
mod ty;

pub use expr::{lemma_ty_at_refs, lemma_type_refs_mono, BinaryOp, Expr, ExprGraph, FuncDef};
pub use ty::{spec_is_transparent, type_refs_below, BuiltInType, SamplerType, StructType, Type};
