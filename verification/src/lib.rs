//! Shader expression graphs and their translation to GLSL, together with the
//! pure parts of the graphics library.

pub mod compile;
pub mod dag;
pub mod expose;
pub mod gl;
pub mod program_def;
pub mod gen;
