use posh::compile::{
    compile_to_program_def, FragmentShaderOutput, UniformVisitor, VertexShaderOutput,
    VertexVisitor,
};
use posh::dag::{BinaryOp, BuiltInType, Expr, ExprGraph, SamplerType, StructType, Type};
use posh::expose::scalar::{Scalar, ScalarType};
use posh::expose::{binary, built_in1, built_in2, built_in3, built_in4, common_field_base, field, get, put, ExprId, Trace};
use posh::program_def::{VertexAttributeDef, VertexBlockDef, VertexInputRate};

fn f32_ty() -> Type {
    Type::BuiltIn(BuiltInType::F32)
}

fn light_graph() -> (ExprGraph, usize, usize) {
    let mut graph = ExprGraph::new();
    let light = graph.add_struct(StructType {
        name: "Light".to_string(),
        fields: vec![
            ("color".to_string(), Type::BuiltIn(BuiltInType::Vec3)),
            ("power".to_string(), f32_ty()),
        ],
    });
    let u = graph.add(Expr::Arg { name: "u".to_string(), ty: Type::Struct(light) });
    let v = graph.add(Expr::Arg { name: "v".to_string(), ty: Type::Struct(light) });
    (graph, u, v)
}

#[test]
fn put_and_get_expressions() {
    let mut graph = ExprGraph::new();
    let id = put(&mut graph, Expr::Arg { name: "x".to_string(), ty: f32_ty() });
    assert_eq!(id, ExprId(0));
    assert!(matches!(get(&graph, id), Expr::Arg { name, .. } if name == "x"));
}

#[test]
fn traces_build_the_graph() {
    let mut graph = ExprGraph::new();
    let a = Trace::from_ident(&mut graph, "a", f32_ty());
    let b = Trace::from_ident(&mut graph, "b", f32_ty());
    let sum = binary(&mut graph, a, BinaryOp::Add, b, f32_ty());
    assert_eq!(sum.expr_id, ExprId(2));
    assert_eq!(graph.len(), 3);
    match sum.expr(&graph) {
        Expr::Binary { left, op, right, .. } => {
            assert_eq!((*left, *op, *right), (0, BinaryOp::Add, 1));
        }
        other => panic!("unexpected expression: {:?}", other),
    }
}

#[test]
fn field_access_records_member() {
    let (mut graph, u, _) = light_graph();
    let base = Trace { expr_id: ExprId(u) };
    let power = field(&mut graph, base, "power", f32_ty());
    match power.expr(&graph) {
        Expr::Field { base, name, .. } => {
            assert_eq!(*base, u);
            assert_eq!(name, "power");
        }
        other => panic!("unexpected expression: {:?}", other),
    }
}

#[test]
fn common_base_of_all_fields() {
    let (mut graph, u, v) = light_graph();
    let color = graph.add(Expr::Field { base: u, name: "color".to_string(), ty: Type::BuiltIn(BuiltInType::Vec3) });
    let power = graph.add(Expr::Field { base: u, name: "power".to_string(), ty: f32_ty() });
    let other = graph.add(Expr::Field { base: v, name: "power".to_string(), ty: f32_ty() });

    assert_eq!(common_field_base(&graph, &vec![power, color]), Some(u));
    // A field is missing.
    assert_eq!(common_field_base(&graph, &vec![color]), None);
    // The fields belong to different values.
    assert_eq!(common_field_base(&graph, &vec![color, other]), None);
    // Not a field access.
    assert_eq!(common_field_base(&graph, &vec![u]), None);
    assert_eq!(common_field_base(&graph, &vec![]), None);
}

#[test]
fn uniform_visitor_numbers_uniforms() {
    let mut visitor = UniformVisitor::new();
    visitor.accept_sampler2d("uniforms.tex", SamplerType::Sampler2d);
    visitor.accept_sampler2d("uniforms.shadow", SamplerType::Sampler2d);
    visitor.accept_block("uniforms", f32_ty());
    assert_eq!(visitor.sampler_defs[1].name, "uniforms.shadow");
    assert_eq!(visitor.sampler_defs[1].texture_unit, 1);
    assert_eq!(visitor.block_defs[0].block_name, "uniforms_posh_block");
    assert_eq!(visitor.block_defs[0].arg_name, "uniforms");
    assert_eq!(visitor.block_defs[0].location, 0);
}

#[test]
fn compile_simple_program() {
    let mut graph = ExprGraph::new();
    let pos = graph.add(Expr::Arg { name: "pos".to_string(), ty: Type::BuiltIn(BuiltInType::Vec4) });
    let a = graph.add(Expr::Arg { name: "a".to_string(), ty: f32_ty() });
    let c = graph.add(Expr::Arg { name: "c".to_string(), ty: Type::BuiltIn(BuiltInType::Vec4) });

    let mut vertex = VertexVisitor::new();
    vertex.attribute_defs.push(VertexAttributeDef {
        name: "pos".to_string(),
        ty: BuiltInType::Vec4,
        offset: 0,
    });
    vertex.vertex_defs.push(VertexBlockDef {
        input_rate: VertexInputRate::Vertex,
        stride: 16,
        attributes: vec![VertexAttributeDef {
            name: "pos".to_string(),
            ty: BuiltInType::Vec4,
            offset: 0,
        }],
    });
    let vertex_output = VertexShaderOutput {
        position: pos,
        varying: vec![("v".to_string(), a)],
        point_size: None,
    };
    let fragment_output = FragmentShaderOutput {
        fragment: vec![("color".to_string(), c)],
        fragment_depth: None,
    };
    let def = compile_to_program_def(
        &graph,
        UniformVisitor::new(),
        vertex,
        &vertex_output,
        &fragment_output,
    );
    assert_eq!(
        def.vertex_shader_source,
        "\n\nin vec4 pos;\nout float v;\n\nvoid main() {\n    gl_Position = pos;\n    v = a;\n}\n"
    );
    assert_eq!(
        def.fragment_shader_source,
        "\n\nin float v;\nlayout(location = 0) out vec4 color;\n\nvoid main() {\n    color = c;\n}\n"
    );
    assert_eq!(def.vertex_block_defs.len(), 1);
    assert!(def.uniform_block_defs.is_empty());
}

#[test]
fn built_in_calls_record_their_arguments() {
    let mut graph = ExprGraph::new();
    let a = Trace::from_ident(&mut graph, "a", f32_ty());
    let b = Trace::from_ident(&mut graph, "b", f32_ty());
    let c = built_in1(&mut graph, "sin", a, f32_ty());
    let d = built_in2(&mut graph, "max", a, b, f32_ty());
    let e = built_in3(&mut graph, "clamp", a, b, c, f32_ty());
    let f = built_in4(&mut graph, "vec4", a, b, c, d, Type::BuiltIn(BuiltInType::Vec4));
    let args_of = |t: Trace, graph: &ExprGraph| match t.expr(graph) {
        Expr::CallBuiltIn { name, args, .. } => (name.clone(), args.clone()),
        other => panic!("unexpected expression: {:?}", other),
    };
    assert_eq!(args_of(c, &graph), ("sin".to_string(), vec![0]));
    assert_eq!(args_of(d, &graph), ("max".to_string(), vec![0, 1]));
    assert_eq!(args_of(e, &graph), ("clamp".to_string(), vec![0, 1, 2]));
    assert_eq!(args_of(f, &graph), ("vec4".to_string(), vec![0, 1, 2, 3]));
    assert!(matches!(graph.ty_of(f.expr_id.0), Type::BuiltIn(BuiltInType::Vec4)));
}

#[test]
fn scalar_operations() {
    let mut graph = ExprGraph::new();
    let x = Trace::from_ident(&mut graph, "x", Type::BuiltIn(BuiltInType::I32));
    let y = Trace::from_ident(&mut graph, "y", Type::BuiltIn(BuiltInType::I32));
    let x = Scalar::<i32>::from_trace(&graph, x);
    let y = Scalar::<i32>::from_trace(&graph, y);
    assert_eq!(i32::built_in_type(), BuiltInType::I32);

    let same = x.eq(&mut graph, &y);
    assert!(matches!(
        same.trace().expr(&graph),
        Expr::Binary { left: 0, op: BinaryOp::Eq, right: 1, ty: Type::BuiltIn(BuiltInType::Bool) }
    ));
    let both = same.and(&mut graph, &same);
    assert!(matches!(both.trace().expr(&graph), Expr::Binary { op: BinaryOp::And, .. }));
    // The disjunction is built as a conjunction.
    let either = same.or(&mut graph, &both);
    assert!(matches!(either.trace().expr(&graph), Expr::Binary { op: BinaryOp::And, left: 2, right: 3, .. }));

    let picked = either.branch(&mut graph, x.trace(), y.trace());
    assert!(matches!(
        picked.expr(&graph),
        Expr::Branch { cond: 4, yes: 0, no: 1, ty: Type::BuiltIn(BuiltInType::I32) }
    ));
}

#[test]
fn vertex_visitor_collects_attributes_and_buffers() {
    let mut visitor = VertexVisitor::new();
    visitor.accept(
        "vertex_input",
        VertexInputRate::Vertex,
        20,
        vec![
            VertexAttributeDef { name: "vertex_input.pos".to_string(), ty: BuiltInType::Vec3, offset: 0 },
            VertexAttributeDef { name: "vertex_input.uv".to_string(), ty: BuiltInType::Vec2, offset: 12 },
        ],
    );
    visitor.accept(
        "instance_input",
        VertexInputRate::Instance,
        4,
        vec![VertexAttributeDef { name: "instance_input.id".to_string(), ty: BuiltInType::U32, offset: 0 }],
    );
    let names: Vec<&str> = visitor.attribute_defs.iter().map(|a| a.name.as_str()).collect();
    assert_eq!(names, vec!["vertex_input.pos", "vertex_input.uv", "instance_input.id"]);
    assert_eq!(visitor.vertex_defs.len(), 2);
    assert_eq!(visitor.vertex_defs[0].stride, 20);
    assert_eq!(visitor.vertex_defs[1].input_rate, VertexInputRate::Instance);
    assert_eq!(visitor.vertex_defs[1].attributes[0].offset, 0);
}

#[test]
fn sampler_loads_with_texture() {
    let mut graph = ExprGraph::new();
    let s = posh::expose::sampler::Sampler2::from_ident(&mut graph, "tex");
    let uv = Trace::from_ident(&mut graph, "uv", Type::BuiltIn(BuiltInType::Vec2));
    let texel = s.load(&mut graph, uv);
    assert!(matches!(get(&graph, s.0.expr_id), Expr::Arg { name, ty: Type::BuiltIn(BuiltInType::Sampler(SamplerType::Sampler2d)) } if name == "tex"));
    assert!(matches!(texel.expr(&graph), Expr::CallBuiltIn { name, args, ty: Type::BuiltIn(BuiltInType::Vec4) }
        if name == "texture" && *args == vec![0, 1]));
}

#[test]
fn compile1_finds_the_called_definition() {
    let mut graph = ExprGraph::new();
    let u = Trace::from_ident(&mut graph, "u", f32_ty());
    let body = binary(&mut graph, u, BinaryOp::Mul, u, f32_ty());
    let def = posh::dag::FuncDef { name: "square".to_string(), params: vec![("u".to_string(), f32_ty())], result: body.expr_id.0 };
    let call = posh::expose::func_def_and_call(&mut graph, def, vec![u.expr_id.0]);
    assert_eq!(posh::expose::compile::compile1(&graph, call).map(|d| d.name.clone()), Some("square".to_string()));
    assert!(posh::expose::compile::compile1(&graph, body).is_none());
}
