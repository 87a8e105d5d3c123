use posh::dag::BuiltInType;
use posh::gl::enums::{ElementType, GeometryType};
use posh::gl::raw::primitive_stream::{Mode, PrimitiveStream};
use posh::gl::raw::small_vec::VertexBufferBindingVec;
use posh::gl::raw::vertex_array::VertexArray;
use posh::gl::raw::vertex_layout::VertexAttributeType;
use posh::gl::raw::vertex_spec::{DrawCommand, PrimitiveMode, VertexBufferBinding, VertexSpec};
use posh::program_def::{VertexAttributeDef, VertexInputRate};

fn attr(name: &str, ty: BuiltInType, offset: usize) -> VertexAttributeDef {
    VertexAttributeDef {
        name: name.to_string(),
        ty,
        offset,
    }
}

fn buffers() -> Vec<VertexBufferBinding> {
    vec![
        VertexBufferBinding {
            buffer_id: 10,
            buffer_len: 240,
            attributes: vec![attr("pos", BuiltInType::Vec3, 0), attr("uv", BuiltInType::Vec2, 12)],
            input_rate: VertexInputRate::Vertex,
            stride: 20,
        },
        VertexBufferBinding {
            buffer_id: 11,
            buffer_len: 64,
            attributes: vec![attr("m", BuiltInType::Mat2, 0)],
            input_rate: VertexInputRate::Instance,
            stride: 16,
        },
    ]
}

#[test]
fn vertex_spec_draw_commands() {
    let spec = VertexSpec {
        vertex_data: VertexBufferBindingVec::from_vec(buffers()),
        element_data: Some((12, 12, ElementType::U16)),
        mode: PrimitiveMode::Triangles,
        index_range: (1, 4),
        num_instances: 2,
    };
    let ptr = |index: u32, size: i32, stride: i32, offset: i32| DrawCommand::AttributePointer {
        index,
        size,
        ty: VertexAttributeType::F32,
        stride,
        offset,
    };
    let div = |index: u32, divisor: u32| DrawCommand::AttributeDivisor { index, divisor };
    assert_eq!(
        spec.draw(),
        vec![
            DrawCommand::BindArrayBuffer(10),
            DrawCommand::EnableAttribute(0),
            div(0, 0),
            ptr(0, 3, 20, 0),
            DrawCommand::EnableAttribute(1),
            div(1, 0),
            ptr(1, 2, 20, 12),
            DrawCommand::BindArrayBuffer(11),
            DrawCommand::EnableAttribute(2),
            div(2, 1),
            ptr(2, 2, 16, 0),
            DrawCommand::EnableAttribute(3),
            div(3, 1),
            ptr(3, 2, 16, 8),
            DrawCommand::BindElementBuffer(Some(12)),
            DrawCommand::DrawElementsInstanced {
                mode: PrimitiveMode::Triangles,
                count: 3,
                element_type: ElementType::U16,
                offset: 2,
                num_instances: 2,
            },
            DrawCommand::DisableAttribute(0),
            DrawCommand::DisableAttribute(1),
            DrawCommand::DisableAttribute(2),
            DrawCommand::DisableAttribute(3),
            DrawCommand::BindElementBuffer(None),
        ]
    );
}

#[test]
fn empty_draw_issues_nothing() {
    let spec = VertexSpec {
        vertex_data: VertexBufferBindingVec::from_vec(buffers()),
        element_data: None,
        mode: PrimitiveMode::Points,
        index_range: (3, 3),
        num_instances: 1,
    };
    assert!(spec.draw().is_empty());
    let spec = VertexSpec {
        vertex_data: VertexBufferBindingVec::from_vec(buffers()),
        element_data: None,
        mode: PrimitiveMode::Points,
        index_range: (0, 3),
        num_instances: 0,
    };
    assert!(spec.draw().is_empty());
}

#[test]
fn vertex_array_setup_and_draw() {
    let (va, cmds) = VertexArray::new(7, &buffers(), None).unwrap();
    assert_eq!(cmds.first(), Some(&DrawCommand::BindVertexArray(Some(7))));
    // Per-vertex attributes get no divisor call when the array is set up.
    assert_eq!(cmds[1], DrawCommand::BindArrayBuffer(10));
    assert_eq!(cmds[2], DrawCommand::EnableAttribute(0));
    assert!(matches!(cmds[3], DrawCommand::AttributePointer { index: 0, .. }));
    assert!(cmds.contains(&DrawCommand::AttributeDivisor { index: 2, divisor: 1 }));
    assert!(!cmds.contains(&DrawCommand::AttributeDivisor { index: 0, divisor: 0 }));
    assert_eq!(
        &cmds[cmds.len() - 2..],
        &[DrawCommand::BindVertexArray(None), DrawCommand::UnbindArrayBuffer]
    );

    let binding = va.range_binding((1, 4), GeometryType::Lines);
    assert_eq!(binding.vertex_array_id, 7);
    assert_eq!(binding.vertex_buffers, vec![(10, 240, 20), (11, 64, 16)]);
    assert_eq!(
        binding.draw(),
        vec![
            DrawCommand::BindVertexArray(Some(7)),
            DrawCommand::DrawArrays { mode: GeometryType::Lines, first: 1, count: 3 },
            DrawCommand::BindVertexArray(None),
        ]
    );
}

#[test]
fn vertex_array_with_elements() {
    let (va, cmds) = VertexArray::new(8, &buffers(), Some((4, 40, ElementType::U32))).unwrap();
    assert!(cmds.contains(&DrawCommand::BindElementBuffer(Some(4))));
    let binding = va.range_binding((1, 6), GeometryType::Triangles);
    assert_eq!(
        binding.draw()[1],
        DrawCommand::DrawElements {
            mode: GeometryType::Triangles,
            count: 5,
            element_type: ElementType::U32,
            offset: 4,
        }
    );
}

#[test]
fn primitive_stream_draws_without_instancing() {
    let stream = PrimitiveStream {
        vertices: vec![VertexBufferBinding {
            buffer_id: 3,
            buffer_len: 48,
            attributes: vec![attr("pos", BuiltInType::Vec2, 0), attr("w", BuiltInType::F32, 8)],
            input_rate: VertexInputRate::Vertex,
            stride: 12,
        }],
        elements: None,
        primitive: Mode::TriangleStrip,
        range: (1, 4),
        num_instances: 1,
    };
    let ptr = |index: u32, size: i32, offset: i32| DrawCommand::AttributePointer {
        index,
        size,
        ty: VertexAttributeType::F32,
        stride: 12,
        offset,
    };
    assert_eq!(
        stream.draw(),
        vec![
            DrawCommand::BindArrayBuffer(3),
            DrawCommand::EnableAttribute(0),
            ptr(0, 2, 0),
            DrawCommand::EnableAttribute(1),
            ptr(1, 1, 8),
            DrawCommand::DrawArrays { mode: GeometryType::TriangleStrip, first: 1, count: 3 },
            DrawCommand::DisableAttribute(0),
            DrawCommand::DisableAttribute(1),
        ]
    );

    // An empty range is still bound and drawn.
    let empty = PrimitiveStream { range: (2, 2), elements: Some((9, 8, ElementType::U32)), ..stream };
    let cmds = empty.draw();
    assert!(cmds.contains(&DrawCommand::DrawElements {
        mode: GeometryType::TriangleStrip,
        count: 0,
        element_type: ElementType::U32,
        offset: 8,
    }));
    assert_eq!(cmds.last(), Some(&DrawCommand::BindElementBuffer(None)));
}

#[test]
fn unbinding_disables_what_binding_enabled() {
    let spec = VertexSpec {
        vertex_data: VertexBufferBindingVec::from_vec(buffers()),
        element_data: Some((12, 12, ElementType::U16)),
        mode: PrimitiveMode::Triangles,
        index_range: (0, 3),
        num_instances: 1,
    };
    let enabled: Vec<u32> = spec
        .bind()
        .iter()
        .filter_map(|c| match c {
            DrawCommand::EnableAttribute(i) => Some(*i),
            _ => None,
        })
        .collect();
    let disabled: Vec<u32> = spec
        .unbind()
        .iter()
        .filter_map(|c| match c {
            DrawCommand::DisableAttribute(i) => Some(*i),
            _ => None,
        })
        .collect();
    assert_eq!(enabled, vec![0, 1, 2, 3]);
    assert_eq!(disabled, enabled);
}
