use vstd::prelude::*;

use crate::gl::enums::{ElementType, GeometryType};

use super::error::VertexArrayError;
use super::program::{location_of, locations_of};
use super::vertex_layout::{attribute_layout, VertexAttributeLayout};
use super::vertex_spec::{
    buffers_cmds, buffers_locations, lemma_buffers_locations_mono, lemma_location_of_mono, push_attr_cmds,
    attrs_cmds, DrawCommand, VertexBufferBinding,
};

verus! {

/// A vertex array object: its id, the vertex buffers it reads (object id,
/// length in bytes, stride) and its element buffer, if any.
pub struct VertexArray {
    id: u32,
    vertex_buffers: Vec<(u32, usize, usize)>,
    element_buffer: Option<(u32, usize, ElementType)>,
}

/// A range of a vertex array, drawn as primitives of one type.
pub struct VertexArrayBinding {
    pub vertex_array_id: u32,
    pub vertex_buffers: Vec<(u32, usize, usize)>,
    pub element_buffer: Option<(u32, usize, ElementType)>,
    pub element_range: (usize, usize),
    pub geometry_type: GeometryType,
}

/// Every attribute of every buffer has a type that can be an attribute.
pub open spec fn attributes_supported(bs: Seq<VertexBufferBinding>) -> bool {
    forall|k: int, j: int|
        0 <= k < bs.len() && 0 <= j < bs[k].attributes@.len() ==> (#[trigger] attribute_layout(
            bs[k].attributes@[j].ty,
        )) is Some
}

/// The buffers can be set up: each has a positive stride that divides its
/// length and fits an `i32`, every attribute that has a layout lies within a
/// vertex, and the attribute indices fit in 32 bits.
pub open spec fn buffers_settable(bs: Seq<VertexBufferBinding>) -> bool {
    &&& forall|k: int|
        0 <= k < bs.len() ==> {
            let b = #[trigger] bs[k];
            &&& b.stride > 0
            &&& b.stride <= i32::MAX
            &&& b.buffer_len % b.stride == 0
            &&& forall|j: int|
                0 <= j < b.attributes@.len() && (#[trigger] attribute_layout(b.attributes@[j].ty)) is Some
                    ==> b.attributes@[j].offset + locations_of(b.attributes@[j].ty) * ((attribute_layout(
                    b.attributes@[j].ty,
                )->0).1 * 4) <= b.stride
        }
    &&& buffers_locations(bs, bs.len() as int) <= u32::MAX
}

impl VertexArray {
    /// Sets up the vertex array object `id` with the vertex buffers and the
    /// element buffer: the calls to make. Every attribute type must be one
    /// that can be an attribute; the caller panics otherwise.
    #[verifier::rlimit(60)]
    pub fn new(
        id: u32,
        vertex_buffers: &Vec<VertexBufferBinding>,
        element_buffer: Option<(u32, usize, ElementType)>,
    ) -> (r: Result<(VertexArray, Vec<DrawCommand>), VertexArrayError>)
        requires
            buffers_settable(vertex_buffers@),
            attributes_supported(vertex_buffers@),
        ensures
            r matches Ok((va, cmds)) && va.id_view() == id && va.element_view() == element_buffer && cmds@ == seq![
                DrawCommand::BindVertexArray(Some(id)),
            ] + buffers_cmds(vertex_buffers@, vertex_buffers@.len() as int, false) + (match element_buffer {
                Some((e, _, _)) => seq![DrawCommand::BindElementBuffer(Some(e))],
                None => seq![],
            }) + seq![DrawCommand::BindVertexArray(None), DrawCommand::UnbindArrayBuffer],
    {
        let ghost bs = vertex_buffers@;
        let mut cmds: Vec<DrawCommand> = Vec::new();
        cmds.push(DrawCommand::BindVertexArray(Some(id)));
        let ghost head0 = cmds@;
        let mut index: u64 = 0;
        let mut buffers: Vec<(u32, usize, usize)> = Vec::new();
        let mut b: usize = 0;
        while b < vertex_buffers.len()
            invariant
                buffers_settable(bs),
                bs == vertex_buffers@,
                b <= bs.len(),
                index == buffers_locations(bs, b as int),
                attributes_supported(bs),
                cmds@ == head0 + buffers_cmds(bs, b as int, false),
            decreases bs.len() - b,
        {
            let binding = &vertex_buffers[b];
            assert(bs[b as int] == *binding);
            cmds.push(DrawCommand::BindArrayBuffer(binding.buffer_id));
            buffers.push((binding.buffer_id, binding.buffer_len, binding.stride));
            let ghost head = cmds@;
            let ghost base = index;
            let ghost attrs = binding.attributes@;
            proof {
                lemma_buffers_locations_mono(bs, b + 1, bs.len() as int);
            }
            let mut j: usize = 0;
            while j < binding.attributes.len()
                invariant
                    buffers_settable(bs),
                    bs == vertex_buffers@,
                    b < bs.len(),
                    *binding == bs[b as int],
                    attrs == binding.attributes@,
                    j <= attrs.len(),
                    base == buffers_locations(bs, b as int),
                    base + location_of(attrs, attrs.len() as int) <= u32::MAX,
                    index == base + location_of(attrs, j as int),
                    attributes_supported(bs),
                    cmds@ == head + attrs_cmds(attrs, binding.stride, binding.input_rate, base as nat, j as int, false),
                decreases attrs.len() - j,
            {
                let attr = &binding.attributes[j];
                assert(attribute_layout(bs[b as int].attributes@[j as int].ty) is Some);
                match VertexAttributeLayout::new(attr.ty) {
                    Ok(layout) => {
                        proof {
                            lemma_location_of_mono(attrs, j + 1, attrs.len() as int);
                        }
                        push_attr_cmds(&mut cmds, attr, binding.stride, binding.input_rate, index, &layout, false);
                        index = index + layout.locations as u64;
                    },
                    Err(e) => {
                        return Err(VertexArrayError::InvalidVertexAttribute(e));
                    },
                }
                j = j + 1;
            }
            b = b + 1;
        }
        match element_buffer {
            Some((e, _, _)) => {
                cmds.push(DrawCommand::BindElementBuffer(Some(e)));
            },
            None => {},
        }
        cmds.push(DrawCommand::BindVertexArray(None));
        cmds.push(DrawCommand::UnbindArrayBuffer);
        Ok((VertexArray { id, vertex_buffers: buffers, element_buffer }, cmds))
    }

    pub closed spec fn id_view(&self) -> u32 {
        self.id
    }

    pub closed spec fn buffers_view(&self) -> Seq<(u32, usize, usize)> {
        self.vertex_buffers@
    }

    pub closed spec fn element_view(&self) -> Option<(u32, usize, ElementType)> {
        self.element_buffer
    }

    /// The range `element_range` of the vertex array, drawn as primitives
    /// of type `geometry_type`.
    pub fn range_binding(&self, element_range: (usize, usize), geometry_type: GeometryType) -> (r: VertexArrayBinding)
        ensures
            r.vertex_array_id == self.id_view(),
            r.vertex_buffers@ == self.buffers_view(),
            r.element_buffer == self.element_view(),
            r.element_range == element_range,
            r.geometry_type == geometry_type,
    {
        let mut buffers: Vec<(u32, usize, usize)> = Vec::new();
        let mut i: usize = 0;
        while i < self.vertex_buffers.len()
            invariant
                i <= self.vertex_buffers.len(),
                buffers@ == self.vertex_buffers@.take(i as int),
            decreases self.vertex_buffers.len() - i,
        {
            buffers.push(self.vertex_buffers[i]);
            assert(self.vertex_buffers@.take(i + 1) == self.vertex_buffers@.take(i as int).push(self.vertex_buffers@[i as int]));
            i = i + 1;
        }
        assert(self.vertex_buffers@.take(i as int) == self.vertex_buffers@);
        VertexArrayBinding {
            vertex_array_id: self.id,
            vertex_buffers: buffers,
            element_buffer: self.element_buffer,
            element_range,
            geometry_type,
        }
    }
}

impl VertexArrayBinding {
    /// The range can be drawn: it is ordered, lies within the element
    /// buffer, or within every vertex buffer, and its numbers fit the calls.
    pub open spec fn drawable(&self) -> bool {
        let first = self.element_range.0;
        let count = self.element_range.1 - self.element_range.0;
        &&& first <= self.element_range.1
        &&& count <= i32::MAX
        &&& match self.element_buffer {
            Some((_, len, ty)) => first * ty.spec_size() + count * ty.spec_size() <= len && first * ty.spec_size()
                <= i32::MAX,
            None => first <= i32::MAX && forall|k: int|
                0 <= k < self.vertex_buffers@.len() ==> (#[trigger] self.vertex_buffers@[k]).2 > 0
                    && self.vertex_buffers@[k].1 / self.vertex_buffers@[k].2 >= self.element_range.1,
        }
    }

    /// The calls that draw the range: binding the vertex array, drawing its
    /// elements or vertices, and unbinding it.
    pub fn draw(&self) -> (r: Vec<DrawCommand>)
        requires
            self.drawable(),
        ensures
            r@ == seq![
                DrawCommand::BindVertexArray(Some(self.vertex_array_id)),
                match self.element_buffer {
                    Some((_, _, ty)) => DrawCommand::DrawElements {
                        mode: self.geometry_type,
                        count: (self.element_range.1 - self.element_range.0) as i32,
                        element_type: ty,
                        offset: (self.element_range.0 * ty.spec_size()) as i32,
                    },
                    None => DrawCommand::DrawArrays {
                        mode: self.geometry_type,
                        first: self.element_range.0 as i32,
                        count: (self.element_range.1 - self.element_range.0) as i32,
                    },
                },
                DrawCommand::BindVertexArray(None),
            ],
    {
        let first = self.element_range.0;
        let count = self.element_range.1 - self.element_range.0;
        let mut cmds: Vec<DrawCommand> = Vec::new();
        cmds.push(DrawCommand::BindVertexArray(Some(self.vertex_array_id)));
        match self.element_buffer {
            Some((_, _, ty)) => {
                let offset = first * ty.size();
                cmds.push(
                    DrawCommand::DrawElements {
                        mode: self.geometry_type,
                        count: count as i32,
                        element_type: ty,
                        offset: offset as i32,
                    },
                );
            },
            None => {
                cmds.push(DrawCommand::DrawArrays { mode: self.geometry_type, first: first as i32, count: count as i32 });
            },
        }
        cmds.push(DrawCommand::BindVertexArray(None));
        cmds
    }
}

} // verus!
