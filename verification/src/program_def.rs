//! The type-erased definition of a program: its shader sources and the
//! interface that the graphics library binds.

use vstd::prelude::*;

use crate::dag::{BuiltInType, SamplerType, Type};

verus! {

/// A uniform block of a program.
#[derive(Debug, Clone)]
pub struct UniformBlockDef {
    /// The name of the uniform block.
    pub block_name: String,
    /// The name of the single field within the uniform block.
    pub arg_name: String,
    /// The type of the field.
    pub ty: Type,
    /// The binding point of the block.
    pub location: usize,
}

/// A sampler uniform of a program.
#[derive(Debug, Clone)]
pub struct UniformSamplerDef {
    /// The name of the sampler.
    pub name: String,
    /// The type of the sampler.
    pub ty: SamplerType,
    /// The texture unit that the sampler reads.
    pub texture_unit: usize,
}

/// How often a vertex buffer advances.
#[derive(Debug, Copy, Clone, PartialEq, Eq, Structural)]
pub enum VertexInputRate {
    Vertex,
    Instance,
}

/// A vertex attribute: its name, its type and its offset within a vertex.
#[derive(Debug, Clone)]
pub struct VertexAttributeDef {
    pub name: String,
    pub ty: BuiltInType,
    pub offset: usize,
}

/// One vertex buffer of a program: its input rate, the size of a vertex and
/// the attributes in it.
#[derive(Debug, Clone)]
pub struct VertexBlockDef {
    pub input_rate: VertexInputRate,
    pub stride: usize,
    pub attributes: Vec<VertexAttributeDef>,
}

/// A program: its interface and its shader sources.
#[derive(Debug, Clone)]
pub struct ProgramDef {
    pub uniform_block_defs: Vec<UniformBlockDef>,
    pub uniform_sampler_defs: Vec<UniformSamplerDef>,
    pub vertex_block_defs: Vec<VertexBlockDef>,
    pub vertex_shader_source: String,
    pub fragment_shader_source: String,
}

} // verus!
