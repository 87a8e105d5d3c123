use posh::dag::{BinaryOp, BuiltInType, Expr, ExprGraph, StructType, Type};
use posh::gen::glsl::{write_shader_stage, UniformBlockDef};

fn f32_ty() -> Type {
    Type::BuiltIn(BuiltInType::F32)
}

#[test]
fn shared_node_becomes_a_variable() {
    let mut graph = ExprGraph::new();
    let pos = graph.add(Expr::Arg { name: "pos".to_string(), ty: Type::BuiltIn(BuiltInType::Vec4) });
    let a = graph.add(Expr::Arg { name: "a".to_string(), ty: f32_ty() });
    let sq = graph.add(Expr::Binary { left: a, op: BinaryOp::Mul, right: a, ty: f32_ty() });
    let sum = graph.add(Expr::Binary { left: sq, op: BinaryOp::Add, right: sq, ty: f32_ty() });

    let attributes = vec![("in".to_string(), "pos".to_string(), Type::BuiltIn(BuiltInType::Vec4))];
    let outputs = vec![("gl_Position".to_string(), pos), ("x".to_string(), sum)];
    let mut source = String::new();
    write_shader_stage(&mut source, &graph, &Vec::new(), &attributes, &outputs);

    let expected = "\n\nin vec4 pos;\n\nvoid main() {\n    float var_0 = (a * a);\n    gl_Position = pos;\n    x = (var_0 + var_0);\n}\n";
    assert_eq!(source, expected);
}

#[test]
fn conditional_gets_two_blocks() {
    let mut graph = ExprGraph::new();
    let b = graph.add(Expr::Arg { name: "b".to_string(), ty: Type::BuiltIn(BuiltInType::Bool) });
    let x = graph.add(Expr::Arg { name: "x".to_string(), ty: f32_ty() });
    let one = graph.add(Expr::ScalarLiteral { value: "1.0".to_string(), ty: BuiltInType::F32 });
    let branch = graph.add(Expr::Branch { cond: b, yes: x, no: one, ty: f32_ty() });

    let outputs = vec![("out_value".to_string(), branch)];
    let mut source = String::new();
    write_shader_stage(&mut source, &graph, &Vec::new(), &Vec::new(), &outputs);

    let expected = "\n\n\nvoid main() {\n    float var_0;\n    if b {\n        var_0 = x;\n    } else {\n        var_0 = 1.0;\n    }\n    out_value = var_0;\n}\n";
    assert_eq!(source, expected);
}

#[test]
fn value_used_only_in_one_arm_is_declared_in_that_arm() {
    let mut graph = ExprGraph::new();
    let b = graph.add(Expr::Arg { name: "b".to_string(), ty: Type::BuiltIn(BuiltInType::Bool) });
    let x = graph.add(Expr::Arg { name: "x".to_string(), ty: f32_ty() });
    let sq = graph.add(Expr::Binary { left: x, op: BinaryOp::Mul, right: x, ty: f32_ty() });
    let twice = graph.add(Expr::Binary { left: sq, op: BinaryOp::Add, right: sq, ty: f32_ty() });
    let zero = graph.add(Expr::ScalarLiteral { value: "0.0".to_string(), ty: BuiltInType::F32 });
    let branch = graph.add(Expr::Branch { cond: b, yes: twice, no: zero, ty: f32_ty() });

    let outputs = vec![("y".to_string(), branch)];
    let mut source = String::new();
    write_shader_stage(&mut source, &graph, &Vec::new(), &Vec::new(), &outputs);

    let expected = "\n\n\nvoid main() {\n    float var_1;\n    if b {\n        float var_0 = (x * x);\n        var_1 = (var_0 + var_0);\n    } else {\n        var_1 = 0.0;\n    }\n    y = var_1;\n}\n";
    assert_eq!(source, expected);
}

#[test]
fn structs_and_uniform_blocks_are_declared() {
    let mut graph = ExprGraph::new();
    let light = graph.add_struct(StructType {
        name: "Light".to_string(),
        fields: vec![("color".to_string(), Type::BuiltIn(BuiltInType::Vec3)), ("power".to_string(), f32_ty())],
    });
    let u = graph.add(Expr::Arg { name: "uniforms".to_string(), ty: Type::Struct(light) });
    let power = graph.add(Expr::Field { base: u, name: "power".to_string(), ty: f32_ty() });

    let blocks = vec![UniformBlockDef {
        block_name: "uniforms_posh_block".to_string(),
        arg_name: "uniforms".to_string(),
        ty: Type::Struct(light),
    }];
    let outputs = vec![("p".to_string(), power)];
    let mut source = String::new();
    write_shader_stage(&mut source, &graph, &blocks, &Vec::new(), &outputs);

    let expected = "struct Light_Posh0 {\n    vec3 color;\n    float power;\n};\n\nuniform uniforms_posh_block {\n    Light_Posh0 uniforms;\n};\n\n\nvoid main() {\n    p = uniforms.power;\n}\n";
    assert_eq!(source, expected);
}

#[test]
fn arrays_and_struct_literals() {
    // A struct literal is written as a call of the struct's own name.
    let mut graph = ExprGraph::new();
    let pair = graph.add_struct(StructType {
        name: "Pair".to_string(),
        fields: vec![("a".to_string(), f32_ty()), ("b".to_string(), f32_ty())],
    });
    let x = graph.add(Expr::Arg { name: "x".to_string(), ty: f32_ty() });
    let lit = graph.add(Expr::StructLiteral { args: vec![x, x], ty: pair });

    let attributes = vec![("in".to_string(), "xs".to_string(), Type::Array(Box::new(Type::BuiltIn(BuiltInType::IVec2)), 3))];
    let outputs = vec![("o".to_string(), lit)];
    let mut source = String::new();
    write_shader_stage(&mut source, &graph, &Vec::new(), &attributes, &outputs);

    let expected = "struct Pair_Posh0 {\n    float a;\n    float b;\n};\n\n\nin ivec2[3] xs;\n\nvoid main() {\n    o = Pair(x, x);\n}\n";
    assert_eq!(source, expected);
}
