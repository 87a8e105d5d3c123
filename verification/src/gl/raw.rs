//! The untyped layer over OpenGL ES.

pub mod binding_state;
pub mod buffer;
pub mod context;
pub mod error;
pub mod framebuffer;
pub mod image;
pub mod params;
pub mod pipeline;
pub mod primitive_stream;
pub mod program;
pub mod sampler_params;
pub mod small_vec;
pub mod texture;
pub mod tracing;
pub mod vertex_array;
pub mod vertex_spec;
pub mod vertex_layout;
