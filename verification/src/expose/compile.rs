//! Finding the function definition that a shader function calls.

use vstd::prelude::*;

use crate::dag::{Expr, ExprGraph, FuncDef};

use super::Trace;

verus! {

/// The user-defined function that the value `result` of a shader function
/// calls, if `result` is such a call.
pub fn compile1(graph: &ExprGraph, result: Trace) -> (r: Option<&FuncDef>)
    requires
        result.expr_id.0 < graph.nodes().len(),
    ensures
        match graph.nodes()[result.expr_id.0 as int] {
            Expr::CallFuncDef { def, .. } => r == Some(&def),
            _ => r is None,
        },
{
    match result.expr(graph) {
        Expr::CallFuncDef { def, .. } => Some(def),
        _ => None,
    }
}

} // verus!
