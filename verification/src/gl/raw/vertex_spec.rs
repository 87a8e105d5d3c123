use vstd::prelude::*;

use crate::gl::enums::{ElementType, GeometryType};
use crate::program_def::{VertexAttributeDef, VertexInputRate};

use super::program::{location_of, locations_of};
use super::small_vec::{binding_items, VertexBufferBindingVec};
use super::vertex_layout::{attribute_layout, VertexAttributeLayout, VertexAttributeType};

verus! {

/// The kind of primitives that a draw makes.
#[derive(Debug, Copy, Clone, PartialEq, Eq, PartialOrd, Ord, Hash, Structural)]
pub enum PrimitiveMode {
    Points,
    Lines,
    LineStrip,
    LineLoop,
    Triangles,
    TriangleStrip,
    TriangleFan,
}

/// A vertex buffer as a draw reads it: the buffer object and its length in
/// bytes, the attributes in it, how often it advances, and the size of one
/// vertex.
#[derive(Debug)]
pub struct VertexBufferBinding {
    pub buffer_id: u32,
    pub buffer_len: usize,
    pub attributes: Vec<VertexAttributeDef>,
    pub input_rate: VertexInputRate,
    pub stride: usize,
}

/// What a draw reads: vertex buffers, an element buffer (its object, its
/// length in bytes and its index type), the primitive mode, the range of
/// vertices or indices, and the number of instances.
#[derive(Debug)]
pub struct VertexSpec {
    pub vertex_data: VertexBufferBindingVec,
    pub element_data: Option<(u32, usize, ElementType)>,
    pub mode: PrimitiveMode,
    pub index_range: (usize, usize),
    pub num_instances: usize,
}

/// One OpenGL call of a draw.
#[derive(Debug, Copy, Clone, PartialEq, Eq, Structural)]
pub enum DrawCommand {
    BindArrayBuffer(u32),
    EnableAttribute(u32),
    AttributeDivisor { index: u32, divisor: u32 },
    AttributePointer { index: u32, size: i32, ty: VertexAttributeType, stride: i32, offset: i32 },
    BindElementBuffer(Option<u32>),
    DisableAttribute(u32),
    DrawElementsInstanced {
        mode: PrimitiveMode,
        count: i32,
        element_type: ElementType,
        offset: i32,
        num_instances: i32,
    },
    DrawArraysInstanced { mode: PrimitiveMode, first: i32, count: i32, num_instances: i32 },
    BindVertexArray(Option<u32>),
    UnbindArrayBuffer,
    DrawElements { mode: GeometryType, count: i32, element_type: ElementType, offset: i32 },
    DrawArrays { mode: GeometryType, first: i32, count: i32 },
}

/// The divisor of an input rate: 0 per vertex, 1 per instance.
pub open spec fn divisor_of(rate: VertexInputRate) -> u32 {
    match rate {
        VertexInputRate::Vertex => 0,
        VertexInputRate::Instance => 1,
    }
}

/// The calls that set up location `i` of an attribute, at attribute index
/// `index`: enabling it, its divisor (always, or only for a per-instance
/// buffer) and its pointer.
pub open spec fn location_cmds(
    attr: VertexAttributeDef,
    stride: usize,
    rate: VertexInputRate,
    index: nat,
    i: nat,
    always_divisor: bool,
) -> Seq<DrawCommand> {
    let (ty, components, _) = attribute_layout(attr.ty)->0;
    seq![DrawCommand::EnableAttribute(index as u32)] + (if always_divisor || rate is Instance {
        seq![DrawCommand::AttributeDivisor { index: index as u32, divisor: divisor_of(rate) }]
    } else {
        seq![]
    }) + seq![
        DrawCommand::AttributePointer {
            index: index as u32,
            size: components as i32,
            ty,
            stride: stride as i32,
            offset: (attr.offset + i * (components * 4)) as i32,
        },
    ]
}

/// The calls that set up the first `l` locations of an attribute whose
/// first location is `index`.
pub open spec fn attr_cmds(
    attr: VertexAttributeDef,
    stride: usize,
    rate: VertexInputRate,
    index: nat,
    l: nat,
    always_divisor: bool,
) -> Seq<DrawCommand>
    decreases l,
{
    if l == 0 {
        seq![]
    } else {
        attr_cmds(attr, stride, rate, index, (l - 1) as nat, always_divisor) + location_cmds(
            attr,
            stride,
            rate,
            index + (l - 1) as nat,
            (l - 1) as nat,
            always_divisor,
        )
    }
}

/// The calls that set up the first `k` attributes of a buffer whose first
/// location is `index`.
pub open spec fn attrs_cmds(
    attrs: Seq<VertexAttributeDef>,
    stride: usize,
    rate: VertexInputRate,
    index: nat,
    k: int,
    always_divisor: bool,
) -> Seq<DrawCommand>
    decreases k,
{
    if k <= 0 {
        seq![]
    } else {
        attrs_cmds(attrs, stride, rate, index, k - 1, always_divisor) + attr_cmds(
            attrs[k - 1],
            stride,
            rate,
            index + location_of(attrs, k - 1),
            locations_of(attrs[k - 1].ty),
            always_divisor,
        )
    }
}

/// The number of locations that the attributes of the first `k` buffers
/// take.
pub open spec fn buffers_locations(bs: Seq<VertexBufferBinding>, k: int) -> nat
    decreases k,
{
    if k <= 0 {
        0
    } else {
        buffers_locations(bs, k - 1) + location_of(bs[k - 1].attributes@, bs[k - 1].attributes@.len() as int)
    }
}

/// The calls that bind the first `k` vertex buffers and set up their
/// attributes, at consecutive attribute indices.
pub open spec fn buffers_cmds(bs: Seq<VertexBufferBinding>, k: int, always_divisor: bool) -> Seq<DrawCommand>
    decreases k,
{
    if k <= 0 {
        seq![]
    } else {
        let b = bs[k - 1];
        buffers_cmds(bs, k - 1, always_divisor) + seq![DrawCommand::BindArrayBuffer(b.buffer_id)] + attrs_cmds(
            b.attributes@,
            b.stride,
            b.input_rate,
            buffers_locations(bs, k - 1),
            b.attributes@.len() as int,
            always_divisor,
        )
    }
}

/// The calls that disable attribute indices `from` up to `to`.
pub open spec fn disable_cmds(from: nat, to: nat) -> Seq<DrawCommand>
    decreases to - from,
{
    if from >= to {
        seq![]
    } else {
        disable_cmds(from, (to - 1) as nat).push(DrawCommand::DisableAttribute((to - 1) as u32))
    }
}

/// Every attribute of buffer `b` has a layout, and all its locations lie
/// within a vertex.
pub open spec fn buffer_ok(b: VertexBufferBinding) -> bool {
    &&& b.stride > 0
    &&& b.stride <= i32::MAX
    &&& b.buffer_len % b.stride == 0
    &&& forall|j: int|
        0 <= j < b.attributes@.len() ==> #[trigger] attribute_layout(b.attributes@[j].ty) is Some && b.attributes@[j].offset
            + locations_of(b.attributes@[j].ty) * ((attribute_layout(b.attributes@[j].ty)->0).1 * 4) <= b.stride
}

impl VertexSpec {
    /// The vertex buffers can be bound: each one is valid, and the
    /// attribute indices fit in 32 bits.
    pub open spec fn bindable(&self) -> bool {
        buffers_bindable(binding_items(self.vertex_data))
    }

    /// The calls that bind the vertex data.
    pub open spec fn bind_cmds(&self) -> Seq<DrawCommand> {
        buffers_cmds(binding_items(self.vertex_data), binding_items(self.vertex_data).len() as int, true) + match self.element_data {
            Some((id, _, _)) => seq![DrawCommand::BindElementBuffer(Some(id))],
            None => seq![],
        }
    }

    /// The calls that unbind the vertex data.
    pub open spec fn unbind_cmds(&self) -> Seq<DrawCommand> {
        disable_cmds(0, buffers_locations(binding_items(self.vertex_data), binding_items(self.vertex_data).len() as int)) + match self.element_data {
            Some(_) => seq![DrawCommand::BindElementBuffer(None)],
            None => seq![],
        }
    }
}


pub(crate) proof fn lemma_location_of_mono(attrs: Seq<VertexAttributeDef>, j: int, k: int)
    requires
        0 <= j <= k,
    ensures
        location_of(attrs, j) <= location_of(attrs, k),
    decreases k - j,
{
    if j < k {
        lemma_location_of_mono(attrs, j, k - 1);
    }
}

pub(crate) proof fn lemma_buffers_locations_mono(bs: Seq<VertexBufferBinding>, j: int, k: int)
    requires
        0 <= j <= k,
    ensures
        buffers_locations(bs, j) <= buffers_locations(bs, k),
    decreases k - j,
{
    if j < k {
        lemma_buffers_locations_mono(bs, j, k - 1);
    }
}

/// Appends the calls that set up the locations of attribute `attr`, whose
/// first location is `index`.
pub(crate) fn push_attr_cmds(
    cmds: &mut Vec<DrawCommand>,
    attr: &VertexAttributeDef,
    stride: usize,
    rate: VertexInputRate,
    index: u64,
    layout: &VertexAttributeLayout,
    always_divisor: bool,
)
    requires
        attribute_layout(attr.ty) matches Some((t, c, l)) && layout.ty == t && layout.components == c
            && layout.locations == l,
        index + layout.locations <= u32::MAX + 1,
        attr.offset + layout.locations * (layout.components * 4) <= stride,
        stride <= i32::MAX,
    ensures
        final(cmds)@ == old(cmds)@ + attr_cmds(*attr, stride, rate, index as nat, layout.locations as nat, always_divisor),
{
    let ghost start = cmds@;
    let ls = layout.components * 4;
    let divisor: u32 = match rate {
        VertexInputRate::Vertex => 0,
        VertexInputRate::Instance => 1,
    };
    let mut i: usize = 0;
    while i < layout.locations
        invariant
            i <= layout.locations,
            layout.locations <= 4,
            layout.components <= 4,
            ls == layout.components * 4,
            attr.offset + layout.locations * ls <= stride,
            stride <= i32::MAX,
            index + layout.locations <= u32::MAX + 1,
            divisor == divisor_of(rate),
            attribute_layout(attr.ty) matches Some((t, c, l)) && layout.ty == t && layout.components == c
                && layout.locations == l,
            cmds@ == start + attr_cmds(*attr, stride, rate, index as nat, i as nat, always_divisor),
        decreases layout.locations - i,
    {
        proof {
            assert(i * ls <= layout.locations * ls) by (nonlinear_arith)
                requires
                    i <= layout.locations,
            ;
        }
        let offset = attr.offset + i * ls;
        let at = (index + i as u64) as u32;
        cmds.push(DrawCommand::EnableAttribute(at));
        if always_divisor || rate == VertexInputRate::Instance {
            cmds.push(DrawCommand::AttributeDivisor { index: at, divisor });
        }
        cmds.push(
            DrawCommand::AttributePointer {
                index: at,
                size: layout.components as i32,
                ty: layout.ty,
                stride: stride as i32,
                offset: offset as i32,
            },
        );
        assert(cmds@ == start + attr_cmds(*attr, stride, rate, index as nat, (i + 1) as nat, always_divisor));
        i = i + 1;
    }
}

/// The vertex buffers can be bound: each one is valid, and the attribute
/// indices fit in 32 bits.
pub open spec fn buffers_bindable(vd: Seq<VertexBufferBinding>) -> bool {
    &&& forall|k: int| 0 <= k < vd.len() ==> buffer_ok(#[trigger] vd[k])
    &&& buffers_locations(vd, vd.len() as int) <= u32::MAX
}

/// Binds the vertex buffers `vertex_data` and sets up their attributes at
/// consecutive attribute indices, with a divisor call for every location or
/// only for per-instance buffers.
#[verifier::rlimit(60)]
pub fn bind_vertex_buffers(vertex_data: &[VertexBufferBinding], always_divisor: bool) -> (r: Vec<DrawCommand>)
    requires
        buffers_bindable(vertex_data@),
    ensures
        r@ == buffers_cmds(vertex_data@, vertex_data@.len() as int, always_divisor),
{
    let ghost vd = vertex_data@;
    let mut cmds: Vec<DrawCommand> = Vec::new();
    let mut index: u64 = 0;
    let mut b: usize = 0;
    while b < vertex_data.len()
        invariant
            buffers_bindable(vd),
            vd == vertex_data@,
            b <= vd.len(),
            index == buffers_locations(vd, b as int),
            cmds@ == buffers_cmds(vd, b as int, always_divisor),
        decreases vd.len() - b,
    {
        let binding = &vertex_data[b];
        assert(buffer_ok(vd[b as int]));
        cmds.push(DrawCommand::BindArrayBuffer(binding.buffer_id));
        let ghost head = cmds@;
        let ghost base = index;
        let ghost attrs = binding.attributes@;
        proof {
            lemma_buffers_locations_mono(vd, b + 1, vd.len() as int);
        }
        let mut j: usize = 0;
        while j < binding.attributes.len()
            invariant
                buffers_bindable(vd),
                vd == vertex_data@,
                b < vd.len(),
                *binding == vd[b as int],
                attrs == binding.attributes@,
                buffer_ok(*binding),
                j <= attrs.len(),
                base == buffers_locations(vd, b as int),
                base + location_of(attrs, attrs.len() as int) <= u32::MAX,
                index == base + location_of(attrs, j as int),
                cmds@ == head + attrs_cmds(attrs, binding.stride, binding.input_rate, base as nat, j as int, always_divisor),
            decreases attrs.len() - j,
        {
            let attr = &binding.attributes[j];
            assert(attribute_layout(attrs[j as int].ty) is Some);
            match VertexAttributeLayout::new(attr.ty) {
                Ok(layout) => {
                    proof {
                        lemma_location_of_mono(attrs, j + 1, attrs.len() as int);
                    }
                    push_attr_cmds(&mut cmds, attr, binding.stride, binding.input_rate, index, &layout, always_divisor);
                    index = index + layout.locations as u64;
                },
                Err(_) => {},
            }
            j = j + 1;
        }
        b = b + 1;
    }
    cmds
}

/// Disables the attribute indices that binding the vertex buffers
/// `vertex_data` set up.
pub fn disable_vertex_attributes(vertex_data: &[VertexBufferBinding]) -> (r: Vec<DrawCommand>)
    requires
        buffers_bindable(vertex_data@),
    ensures
        r@ == disable_cmds(0, buffers_locations(vertex_data@, vertex_data@.len() as int)),
{
    let ghost vd = vertex_data@;
    let mut total: u64 = 0;
    let mut b: usize = 0;
    while b < vertex_data.len()
        invariant
            buffers_bindable(vd),
            vd == vertex_data@,
            b <= vd.len(),
            total == buffers_locations(vd, b as int),
        decreases vd.len() - b,
    {
        let binding = &vertex_data[b];
        assert(buffer_ok(vd[b as int]));
        proof {
            lemma_buffers_locations_mono(vd, b + 1, vd.len() as int);
        }
        let ghost attrs = binding.attributes@;
        let ghost base = total;
        let mut j: usize = 0;
        while j < binding.attributes.len()
            invariant
                vd == vertex_data@,
                b < vd.len(),
                *binding == vd[b as int],
                attrs == binding.attributes@,
                buffer_ok(*binding),
                j <= attrs.len(),
                base + location_of(attrs, attrs.len() as int) <= u32::MAX,
                total == base + location_of(attrs, j as int),
            decreases attrs.len() - j,
        {
            assert(attribute_layout(attrs[j as int].ty) is Some);
            proof {
                lemma_location_of_mono(attrs, j + 1, attrs.len() as int);
            }
            match VertexAttributeLayout::new(binding.attributes[j].ty) {
                Ok(layout) => {
                    total = total + layout.locations as u64;
                },
                Err(_) => {},
            }
            j = j + 1;
        }
        b = b + 1;
    }
    let mut cmds: Vec<DrawCommand> = Vec::new();
    let mut index: u64 = 0;
    while index < total
        invariant
            index <= total,
            total <= u32::MAX,
            cmds@ == disable_cmds(0, index as nat),
        decreases total - index,
    {
        cmds.push(DrawCommand::DisableAttribute(index as u32));
        index = index + 1;
    }
    cmds
}

impl VertexSpec {
    /// Binds the vertex buffers and sets up their attributes at consecutive
    /// attribute indices, then binds the element buffer, if any.
    pub fn bind(&self) -> (r: Vec<DrawCommand>)
        requires
            self.bindable(),
        ensures
            r@ == self.bind_cmds(),
    {
        let mut cmds = bind_vertex_buffers(self.vertex_data.as_slice(), true);
        match self.element_data {
            Some((id, _, _)) => {
                cmds.push(DrawCommand::BindElementBuffer(Some(id)));
            },
            None => {},
        }
        cmds
    }

    /// Disables the attribute indices that binding set up, and unbinds the
    /// element buffer, if any.
    pub fn unbind(&self) -> (r: Vec<DrawCommand>)
        requires
            self.bindable(),
        ensures
            r@ == self.unbind_cmds(),
    {
        let mut cmds = disable_vertex_attributes(self.vertex_data.as_slice());
        match self.element_data {
            Some(_) => {
                cmds.push(DrawCommand::BindElementBuffer(None));
            },
            None => {},
        }
        cmds
    }
}


impl VertexSpec {
    /// The draw reads nothing: its range is empty or it has no instance.
    pub open spec fn is_empty_draw(&self) -> bool {
        self.index_range.0 >= self.index_range.1 || self.num_instances == 0
    }

    /// The draw reads only data that is there, and its numbers fit the
    /// calls: the element range lies in the element buffer, or the vertex
    /// range in every per-vertex buffer, and every per-instance buffer holds
    /// an element for each instance.
    pub open spec fn draw_ok(&self) -> bool {
        let first = self.index_range.0;
        let count = self.index_range.1 - self.index_range.0;
        self.is_empty_draw() || {
            &&& self.bindable()
            &&& count <= i32::MAX
            &&& self.num_instances <= i32::MAX
            &&& forall|k: int|
                0 <= k < binding_items(self.vertex_data).len() && (#[trigger] binding_items(self.vertex_data)[k]).input_rate is Instance
                    ==> binding_items(self.vertex_data)[k].buffer_len / binding_items(self.vertex_data)[k].stride >= self.num_instances
            &&& match self.element_data {
                Some((_, len, ty)) => {
                    &&& first * ty.spec_size() + count * ty.spec_size() <= len
                    &&& first * ty.spec_size() <= i32::MAX
                },
                None => {
                    &&& first <= i32::MAX
                    &&& forall|k: int|
                        0 <= k < binding_items(self.vertex_data).len() && (#[trigger] binding_items(self.vertex_data)[k]).input_rate is Vertex
                            ==> binding_items(self.vertex_data)[k].buffer_len / binding_items(self.vertex_data)[k].stride >= self.index_range.1
                },
            }
        }
    }

    /// The draw call itself.
    pub open spec fn draw_call(&self) -> DrawCommand {
        let first = self.index_range.0;
        let count = self.index_range.1 - self.index_range.0;
        match self.element_data {
            Some((_, _, ty)) => DrawCommand::DrawElementsInstanced {
                mode: self.mode,
                count: count as i32,
                element_type: ty,
                offset: (first * ty.spec_size()) as i32,
                num_instances: self.num_instances as i32,
            },
            None => DrawCommand::DrawArraysInstanced {
                mode: self.mode,
                first: first as i32,
                count: count as i32,
                num_instances: self.num_instances as i32,
            },
        }
    }

    /// The calls of a draw: nothing for an empty draw, else binding, the
    /// draw call and unbinding.
    pub open spec fn draw_cmds(&self) -> Seq<DrawCommand> {
        if self.is_empty_draw() {
            seq![]
        } else {
            self.bind_cmds() + seq![self.draw_call()] + self.unbind_cmds()
        }
    }

    /// The calls of the draw.
    pub fn draw(&self) -> (r: Vec<DrawCommand>)
        requires
            self.draw_ok(),
        ensures
            r@ == self.draw_cmds(),
    {
        let first = self.index_range.0;
        let end = self.index_range.1;
        if first >= end || self.num_instances == 0 {
            return Vec::new();
        }
        let mut cmds = self.bind();
        let count = end - first;
        match self.element_data {
            Some((_, _, ty)) => {
                let size = ty.size();
                let offset = first * size;
                cmds.push(
                    DrawCommand::DrawElementsInstanced {
                        mode: self.mode,
                        count: count as i32,
                        element_type: ty,
                        offset: offset as i32,
                        num_instances: self.num_instances as i32,
                    },
                );
            },
            None => {
                cmds.push(
                    DrawCommand::DrawArraysInstanced {
                        mode: self.mode,
                        first: first as i32,
                        count: count as i32,
                        num_instances: self.num_instances as i32,
                    },
                );
            },
        }
        let mut rest = self.unbind();
        cmds.append(&mut rest);
        cmds
    }
}

proof fn lemma_contains_add<A>(a: Seq<A>, b: Seq<A>, x: A)
    ensures
        (a + b).contains(x) <==> a.contains(x) || b.contains(x),
{
    if (a + b).contains(x) {
        let k = choose|k: int| 0 <= k < (a + b).len() && (a + b)[k] == x;
        if k < a.len() {
            assert(a[k] == x);
        } else {
            assert(b[k - a.len()] == x);
        }
    }
    if a.contains(x) {
        let k = choose|k: int| 0 <= k < a.len() && a[k] == x;
        assert((a + b)[k] == x);
    }
    if b.contains(x) {
        let k = choose|k: int| 0 <= k < b.len() && b[k] == x;
        assert((a + b)[a.len() + k] == x);
    }
}

proof fn lemma_location_enables(
    attr: VertexAttributeDef,
    stride: usize,
    rate: VertexInputRate,
    index: nat,
    i: nat,
    always_divisor: bool,
    j: u32,
)
    requires
        index <= u32::MAX,
    ensures
        location_cmds(attr, stride, rate, index, i, always_divisor).contains(DrawCommand::EnableAttribute(j))
            <==> j == index,
{
    let (ty, components, _) = attribute_layout(attr.ty)->0;
    let e = seq![DrawCommand::EnableAttribute(index as u32)];
    let d: Seq<DrawCommand> = if always_divisor || rate is Instance {
        seq![DrawCommand::AttributeDivisor { index: index as u32, divisor: divisor_of(rate) }]
    } else {
        seq![]
    };
    let p = seq![
        DrawCommand::AttributePointer {
            index: index as u32,
            size: components as i32,
            ty,
            stride: stride as i32,
            offset: (attr.offset + i * (components * 4)) as i32,
        },
    ];
    assert(location_cmds(attr, stride, rate, index, i, always_divisor) == e + d + p);
    lemma_contains_add(e + d, p, DrawCommand::EnableAttribute(j));
    lemma_contains_add(e, d, DrawCommand::EnableAttribute(j));
    if e.contains(DrawCommand::EnableAttribute(j)) {
        let k = choose|k: int| 0 <= k < e.len() && e[k] == DrawCommand::EnableAttribute(j);
        assert(e[k] == DrawCommand::EnableAttribute(index as u32));
    }
    if j == index {
        assert(e[0] == DrawCommand::EnableAttribute(j));
    }
    if d.contains(DrawCommand::EnableAttribute(j)) {
        let k = choose|k: int| 0 <= k < d.len() && d[k] == DrawCommand::EnableAttribute(j);
    }
    if p.contains(DrawCommand::EnableAttribute(j)) {
        let k = choose|k: int| 0 <= k < p.len() && p[k] == DrawCommand::EnableAttribute(j);
    }
}

proof fn lemma_attr_enables(
    attr: VertexAttributeDef,
    stride: usize,
    rate: VertexInputRate,
    index: nat,
    l: nat,
    always_divisor: bool,
    j: u32,
)
    requires
        index + l <= u32::MAX + 1,
    ensures
        attr_cmds(attr, stride, rate, index, l, always_divisor).contains(DrawCommand::EnableAttribute(j)) <==> index
            <= j < index + l,
    decreases l,
{
    if l > 0 {
        lemma_attr_enables(attr, stride, rate, index, (l - 1) as nat, always_divisor, j);
        lemma_location_enables(attr, stride, rate, index + (l - 1) as nat, (l - 1) as nat, always_divisor, j);
        lemma_contains_add(
            attr_cmds(attr, stride, rate, index, (l - 1) as nat, always_divisor),
            location_cmds(attr, stride, rate, index + (l - 1) as nat, (l - 1) as nat, always_divisor),
            DrawCommand::EnableAttribute(j),
        );
    }
}

proof fn lemma_attrs_enable(
    attrs: Seq<VertexAttributeDef>,
    stride: usize,
    rate: VertexInputRate,
    index: nat,
    k: int,
    always_divisor: bool,
    j: u32,
)
    requires
        0 <= k <= attrs.len(),
        index + location_of(attrs, k) <= u32::MAX + 1,
    ensures
        attrs_cmds(attrs, stride, rate, index, k, always_divisor).contains(DrawCommand::EnableAttribute(j))
            <==> index <= j < index + location_of(attrs, k),
    decreases k,
{
    if k > 0 {
        lemma_attrs_enable(attrs, stride, rate, index, k - 1, always_divisor, j);
        lemma_attr_enables(
            attrs[k - 1],
            stride,
            rate,
            index + location_of(attrs, k - 1),
            locations_of(attrs[k - 1].ty),
            always_divisor,
            j,
        );
        lemma_contains_add(
            attrs_cmds(attrs, stride, rate, index, k - 1, always_divisor),
            attr_cmds(
                attrs[k - 1],
                stride,
                rate,
                index + location_of(attrs, k - 1),
                locations_of(attrs[k - 1].ty),
                always_divisor,
            ),
            DrawCommand::EnableAttribute(j),
        );
    }
}

proof fn lemma_buffers_enable(bs: Seq<VertexBufferBinding>, k: int, always_divisor: bool, j: u32)
    requires
        0 <= k <= bs.len(),
        buffers_locations(bs, k) <= u32::MAX + 1,
    ensures
        buffers_cmds(bs, k, always_divisor).contains(DrawCommand::EnableAttribute(j)) <==> j < buffers_locations(
            bs,
            k,
        ),
    decreases k,
{
    if k > 0 {
        let b = bs[k - 1];
        let prev = buffers_cmds(bs, k - 1, always_divisor);
        let head = seq![DrawCommand::BindArrayBuffer(b.buffer_id)];
        let rest = attrs_cmds(
            b.attributes@,
            b.stride,
            b.input_rate,
            buffers_locations(bs, k - 1),
            b.attributes@.len() as int,
            always_divisor,
        );
        lemma_buffers_enable(bs, k - 1, always_divisor, j);
        lemma_attrs_enable(
            b.attributes@,
            b.stride,
            b.input_rate,
            buffers_locations(bs, k - 1),
            b.attributes@.len() as int,
            always_divisor,
            j,
        );
        lemma_contains_add(prev + head, rest, DrawCommand::EnableAttribute(j));
        lemma_contains_add(prev, head, DrawCommand::EnableAttribute(j));
        if head.contains(DrawCommand::EnableAttribute(j)) {
            let x = choose|x: int| 0 <= x < head.len() && head[x] == DrawCommand::EnableAttribute(j);
        }
    }
}

proof fn lemma_disable_cmds(from: nat, to: nat, j: u32)
    requires
        to <= u32::MAX + 1,
    ensures
        disable_cmds(from, to).contains(DrawCommand::DisableAttribute(j)) <==> from <= j < to,
    decreases to - from,
{
    if from < to {
        lemma_disable_cmds(from, (to - 1) as nat, j);
        let prev = disable_cmds(from, (to - 1) as nat);
        let last = DrawCommand::DisableAttribute((to - 1) as u32);
        lemma_contains_add(prev, seq![last], DrawCommand::DisableAttribute(j));
        assert(prev.push(last) == prev + seq![last]);
        if seq![last].contains(DrawCommand::DisableAttribute(j)) {
            let x = choose|x: int| 0 <= x < 1 && seq![last][x] == DrawCommand::DisableAttribute(j);
        }
        if j == to - 1 {
            assert(seq![last][0] == DrawCommand::DisableAttribute(j));
        }
    }
}

/// Unbinding disables exactly the attribute indices that binding enabled:
/// one for each location of each attribute, numbered from zero.
pub proof fn lemma_unbind_undoes_bind(spec: VertexSpec, j: u32)
    requires
        spec.bindable(),
    ensures
        spec.bind_cmds().contains(DrawCommand::EnableAttribute(j)) <==> spec.unbind_cmds().contains(
            DrawCommand::DisableAttribute(j),
        ),
        spec.bind_cmds().contains(DrawCommand::EnableAttribute(j)) <==> j < buffers_locations(
            binding_items(spec.vertex_data),
            binding_items(spec.vertex_data).len() as int,
        ),
{
    let vd = binding_items(spec.vertex_data);
    let n = buffers_locations(vd, vd.len() as int);
    let e: Seq<DrawCommand> = match spec.element_data {
        Some((id, _, _)) => seq![DrawCommand::BindElementBuffer(Some(id))],
        None => seq![],
    };
    let u: Seq<DrawCommand> = match spec.element_data {
        Some(_) => seq![DrawCommand::BindElementBuffer(None)],
        None => seq![],
    };
    lemma_buffers_enable(vd, vd.len() as int, true, j);
    lemma_contains_add(buffers_cmds(vd, vd.len() as int, true), e, DrawCommand::EnableAttribute(j));
    if e.contains(DrawCommand::EnableAttribute(j)) {
        let x = choose|x: int| 0 <= x < e.len() && e[x] == DrawCommand::EnableAttribute(j);
    }
    lemma_disable_cmds(0, n, j);
    lemma_contains_add(disable_cmds(0, n), u, DrawCommand::DisableAttribute(j));
    if u.contains(DrawCommand::DisableAttribute(j)) {
        let x = choose|x: int| 0 <= x < u.len() && u[x] == DrawCommand::DisableAttribute(j);
    }
}

} // verus!
