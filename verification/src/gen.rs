//! Code generation: from expression graphs to GLSL source.

pub mod glsl;
pub mod names;
pub mod scope_form;
pub mod simplified_expr;
pub mod struct_registry;
pub mod topo;
pub mod var_form;
