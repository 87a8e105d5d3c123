//! The graphics library: the decisions that the OpenGL layer takes, on plain
//! values.

pub mod element_buffer;
pub mod enums;
pub mod framebuffer;
pub mod image;
pub mod raw;
pub mod texture;
pub mod uniform_buffer;
pub mod program;
pub mod uniform_bool;
pub use uniform_bool::Bool;
