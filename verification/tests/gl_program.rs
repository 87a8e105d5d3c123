use posh::dag::{BuiltInType, SamplerType, Type};
use posh::gl::raw::error::{ProgramError, ProgramValidationError};
use posh::gl::raw::program::{attribute_locations, validate_program_def};
use posh::gl::raw::vertex_layout::{VertexAttributeLayout, VertexAttributeType};
use posh::program_def::{
    ProgramDef, UniformBlockDef, UniformSamplerDef, VertexAttributeDef, VertexBlockDef,
    VertexInputRate,
};

fn sampler(name: &str, unit: usize) -> UniformSamplerDef {
    UniformSamplerDef {
        name: name.to_string(),
        ty: SamplerType::Sampler2d,
        texture_unit: unit,
    }
}

fn block(name: &str, location: usize) -> UniformBlockDef {
    UniformBlockDef {
        block_name: name.to_string(),
        arg_name: "arg".to_string(),
        ty: Type::BuiltIn(BuiltInType::Vec4),
        location,
    }
}

fn attr(name: &str, ty: BuiltInType, offset: usize) -> VertexAttributeDef {
    VertexAttributeDef {
        name: name.to_string(),
        ty,
        offset,
    }
}

fn def(
    samplers: Vec<UniformSamplerDef>,
    blocks: Vec<UniformBlockDef>,
    vertex: Vec<VertexBlockDef>,
) -> ProgramDef {
    ProgramDef {
        uniform_block_defs: blocks,
        uniform_sampler_defs: samplers,
        vertex_block_defs: vertex,
        vertex_shader_source: String::new(),
        fragment_shader_source: String::new(),
    }
}

#[test]
fn valid_program_def() {
    let d = def(
        vec![sampler("a", 0), sampler("b", 1)],
        vec![block("x", 0), block("y", 1)],
        vec![],
    );
    assert!(validate_program_def(&d).is_ok());
}

#[test]
fn duplicate_sampler_name() {
    let d = def(vec![sampler("a", 0), sampler("a", 1)], vec![], vec![]);
    match validate_program_def(&d) {
        Err(ProgramValidationError::DuplicateSampler(name)) => assert_eq!(name, "a"),
        other => panic!("unexpected result: {:?}", other),
    }
}

#[test]
fn duplicate_sampler_unit() {
    let d = def(
        vec![sampler("a", 2), sampler("b", 3), sampler("c", 2)],
        vec![block("x", 2), block("x", 2)],
        vec![],
    );
    match validate_program_def(&d) {
        Err(ProgramValidationError::DuplicateSamplerTextureUnit(unit)) => assert_eq!(unit, 2),
        other => panic!("unexpected result: {:?}", other),
    }
}

#[test]
fn duplicate_block_name() {
    let d = def(vec![], vec![block("x", 0), block("y", 1), block("x", 1)], vec![]);
    match validate_program_def(&d) {
        Err(ProgramValidationError::DuplicateUniformBlock(name)) => assert_eq!(name, "x"),
        other => panic!("unexpected result: {:?}", other),
    }
}

#[test]
fn duplicate_block_location() {
    let d = def(vec![], vec![block("x", 4), block("y", 4)], vec![]);
    match validate_program_def(&d) {
        Err(ProgramValidationError::DuplicateUniformBlockLocation(loc)) => assert_eq!(loc, 4),
        other => panic!("unexpected result: {:?}", other),
    }
}

#[test]
fn attribute_locations_follow_layout() {
    let d = def(
        vec![],
        vec![],
        vec![
            VertexBlockDef {
                input_rate: VertexInputRate::Vertex,
                stride: 100,
                attributes: vec![
                    attr("pos", BuiltInType::Vec3, 0),
                    attr("transform", BuiltInType::Mat4, 12),
                ],
            },
            VertexBlockDef {
                input_rate: VertexInputRate::Instance,
                stride: 4,
                attributes: vec![attr("flag", BuiltInType::Bool, 0)],
            },
        ],
    );
    let locations = attribute_locations(&d).unwrap();
    assert_eq!(
        locations,
        vec![
            ("pos".to_string(), 0),
            ("transform".to_string(), 1),
            ("flag".to_string(), 5),
        ]
    );
}

#[test]
fn attribute_locations_reject_boolean_vectors() {
    let d = def(
        vec![],
        vec![],
        vec![VertexBlockDef {
            input_rate: VertexInputRate::Vertex,
            stride: 8,
            attributes: vec![
                attr("ok", BuiltInType::F32, 0),
                attr("bad", BuiltInType::BVec2, 4),
            ],
        }],
    );
    match attribute_locations(&d) {
        Err(ProgramError::InvalidVertexAttribute(msg)) => {
            assert_eq!(msg, "boolean vectors are not supported")
        }
        other => panic!("unexpected result: {:?}", other),
    }
}

#[test]
fn attribute_layouts() {
    let l = VertexAttributeLayout::new(BuiltInType::Mat3).unwrap();
    assert_eq!(l.ty, VertexAttributeType::F32);
    assert_eq!(l.components, 3);
    assert_eq!(l.locations, 3);
    assert_eq!(l.location_size(), 12);

    let l = VertexAttributeLayout::new(BuiltInType::Bool).unwrap();
    assert_eq!(l.ty, VertexAttributeType::U32);
    assert_eq!(l.components, 1);

    match VertexAttributeLayout::new(BuiltInType::Sampler(SamplerType::Sampler2d)) {
        Err(msg) => assert_eq!(msg, "sampler types are not supported"),
        Ok(_) => panic!("samplers are not attributes"),
    }
    assert_eq!(VertexAttributeType::I32.size(), 4);
}

#[test]
fn errors_convert_into_their_wrappers() {
    let e = ProgramError::from(ProgramValidationError::DuplicateUniformBlockLocation(3));
    assert!(matches!(e, ProgramError::Validation(ProgramValidationError::DuplicateUniformBlockLocation(3))));
    let e = posh::gl::raw::error::Error::from(e);
    assert!(matches!(e, posh::gl::raw::error::Error::Program(ProgramError::Validation(_))));
    let e = posh::gl::raw::error::Error::from(posh::gl::raw::error::TextureError::Empty);
    assert!(matches!(e, posh::gl::raw::error::Error::Texture(posh::gl::raw::error::TextureError::Empty)));
}
