//! A stream of primitives drawn from vertex buffers without instancing: the
//! vertex buffers with their layouts, an optional element buffer, the kind
//! of primitives and the range to draw.

use vstd::prelude::*;

use crate::gl::enums::{ElementType, GeometryType};

use super::vertex_spec::{
    bind_vertex_buffers, buffers_bindable, buffers_cmds, buffers_locations, disable_cmds, disable_vertex_attributes,
    DrawCommand, VertexBufferBinding,
};

verus! {

/// The kind of primitives that a stream draws.
pub type Mode = GeometryType;

/// Vertex buffers, an optional element buffer (object id, length in bytes,
/// type of its indices), the kind of primitives and the range of vertices
/// or elements to draw.
pub struct PrimitiveStream {
    pub vertices: Vec<VertexBufferBinding>,
    pub elements: Option<(u32, usize, ElementType)>,
    pub primitive: Mode,
    pub range: (usize, usize),
    pub num_instances: usize,
}

impl PrimitiveStream {
    /// The calls that bind the stream: each vertex buffer with its
    /// attributes, a divisor only for per-instance buffers, then the element
    /// buffer, if any.
    pub open spec fn bind_cmds(&self) -> Seq<DrawCommand> {
        buffers_cmds(self.vertices@, self.vertices@.len() as int, false) + match self.elements {
            Some((id, _, _)) => seq![DrawCommand::BindElementBuffer(Some(id))],
            None => seq![],
        }
    }

    /// The calls that unbind the stream.
    pub open spec fn unbind_cmds(&self) -> Seq<DrawCommand> {
        disable_cmds(0, buffers_locations(self.vertices@, self.vertices@.len() as int)) + match self.elements {
            Some(_) => seq![DrawCommand::BindElementBuffer(None)],
            None => seq![],
        }
    }

    /// The draw call: of the elements in the range, or of the vertices in
    /// the range.
    pub open spec fn draw_call(&self) -> DrawCommand {
        let first = self.range.0;
        let count = self.range.1 - self.range.0;
        match self.elements {
            Some((_, _, ty)) => DrawCommand::DrawElements {
                mode: self.primitive,
                count: count as i32,
                element_type: ty,
                offset: (first * ty.spec_size()) as i32,
            },
            None => DrawCommand::DrawArrays { mode: self.primitive, first: first as i32, count: count as i32 },
        }
    }

    /// The stream can be drawn: its buffers can be bound, its range is
    /// ordered and lies within the element buffer, or within every vertex
    /// buffer, and its numbers fit the calls.
    pub open spec fn drawable(&self) -> bool {
        let first = self.range.0;
        let count = self.range.1 - self.range.0;
        &&& buffers_bindable(self.vertices@)
        &&& first <= self.range.1
        &&& count <= i32::MAX
        &&& match self.elements {
            Some((_, len, ty)) => {
                &&& first * ty.spec_size() + count * ty.spec_size() <= len
                &&& first * ty.spec_size() <= i32::MAX
            },
            None => {
                &&& first <= i32::MAX
                &&& forall|k: int|
                    0 <= k < self.vertices@.len() ==> (#[trigger] self.vertices@[k]).buffer_len
                        / self.vertices@[k].stride >= self.range.1
            },
        }
    }

    /// Binds the vertex buffers and the element buffer.
    pub fn bind(&self) -> (r: Vec<DrawCommand>)
        requires
            buffers_bindable(self.vertices@),
        ensures
            r@ == self.bind_cmds(),
    {
        let mut cmds = bind_vertex_buffers(self.vertices.as_slice(), false);
        match self.elements {
            Some((id, _, _)) => {
                cmds.push(DrawCommand::BindElementBuffer(Some(id)));
            },
            None => {},
        }
        cmds
    }

    /// Disables the attributes and unbinds the element buffer.
    pub fn unbind(&self) -> (r: Vec<DrawCommand>)
        requires
            buffers_bindable(self.vertices@),
        ensures
            r@ == self.unbind_cmds(),
    {
        let mut cmds = disable_vertex_attributes(self.vertices.as_slice());
        match self.elements {
            Some(_) => {
                cmds.push(DrawCommand::BindElementBuffer(None));
            },
            None => {},
        }
        cmds
    }

    /// The calls that draw the stream: binding, the draw call and
    /// unbinding. An empty range is drawn too.
    pub fn draw(&self) -> (r: Vec<DrawCommand>)
        requires
            self.drawable(),
        ensures
            r@ == self.bind_cmds() + seq![self.draw_call()] + self.unbind_cmds(),
    {
        let first = self.range.0;
        let count = self.range.1 - self.range.0;
        let mut cmds = self.bind();
        match self.elements {
            Some((_, _, ty)) => {
                let offset = first * ty.size();
                cmds.push(
                    DrawCommand::DrawElements {
                        mode: self.primitive,
                        count: count as i32,
                        element_type: ty,
                        offset: offset as i32,
                    },
                );
            },
            None => {
                cmds.push(DrawCommand::DrawArrays { mode: self.primitive, first: first as i32, count: count as i32 });
            },
        }
        let mut rest = self.unbind();
        cmds.append(&mut rest);
        cmds
    }
}

} // verus!
