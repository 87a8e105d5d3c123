use posh::dag::{BinaryOp, BuiltInType, Expr, ExprGraph, FuncDef, SamplerType, StructType, Type};
use posh::gen::topo::topological_ordering;

#[test]
fn matrix_types() {
    assert!(BuiltInType::Mat2.is_mat());
    assert!(BuiltInType::Mat4.is_mat());
    assert!(!BuiltInType::Vec4.is_mat());
}

#[test]
fn samplers_are_not_transparent() {
    assert!(!BuiltInType::Sampler(SamplerType::Sampler2d).is_transparent());
    assert!(BuiltInType::F32.is_transparent());
    let arr = Type::Array(Box::new(Type::BuiltIn(BuiltInType::Sampler(SamplerType::Sampler2d))), 2);
    assert!(!arr.is_transparent());
    assert!(Type::Struct(0).is_transparent());
}

#[test]
fn built_in_type_of_a_type() {
    assert_eq!(Type::BuiltIn(BuiltInType::U32).built_in_type(), Some(BuiltInType::U32));
    assert_eq!(Type::Struct(1).built_in_type(), None);
}

#[test]
fn struct_types_are_equal_by_identity() {
    assert!(Type::Struct(1) == Type::Struct(1));
    assert!(Type::Struct(1) != Type::Struct(2));
    let a = Type::Array(Box::new(Type::BuiltIn(BuiltInType::F32)), 3);
    let b = Type::Array(Box::new(Type::BuiltIn(BuiltInType::F32)), 4);
    assert!(a != b);
}

#[test]
fn node_types_and_operands() {
    let mut graph = ExprGraph::new();
    let x = graph.add(Expr::Arg { name: "x".to_string(), ty: Type::BuiltIn(BuiltInType::F32) });
    let y = graph.add(Expr::Binary { left: x, op: BinaryOp::Add, right: x, ty: Type::BuiltIn(BuiltInType::F32) });
    let call = graph.add(Expr::CallFuncDef {
        def: FuncDef { name: "f".to_string(), params: vec![("p".to_string(), Type::BuiltIn(BuiltInType::F32))], result: y },
        args: vec![x],
    });
    assert_eq!(graph.len(), 3);
    assert_eq!(graph.node(y).predecessors(), vec![x, x]);
    assert_eq!(graph.node(call).predecessors(), vec![x]);
    assert_eq!(graph.node(call).dependencies(), vec![x, y]);
    assert!(graph.ty_of(call) == Type::BuiltIn(BuiltInType::F32));
    let s = graph.add_struct(StructType { name: "S".to_string(), fields: vec![] });
    let lit = graph.add(Expr::StructLiteral { args: vec![], ty: s });
    assert!(graph.node(lit).ty(&graph) == Type::Struct(s));
}

#[test]
fn topological_positions_put_users_first() {
    let mut graph = ExprGraph::new();
    let a = graph.add(Expr::Arg { name: "a".to_string(), ty: Type::BuiltIn(BuiltInType::F32) });
    let b = graph.add(Expr::Arg { name: "b".to_string(), ty: Type::BuiltIn(BuiltInType::F32) });
    let sum = graph.add(Expr::Binary { left: a, op: BinaryOp::Add, right: b, ty: Type::BuiltIn(BuiltInType::F32) });
    let unused = graph.add(Expr::Arg { name: "c".to_string(), ty: Type::BuiltIn(BuiltInType::F32) });
    let order = topological_ordering(&graph, &vec![sum]);
    assert_eq!(order.len(), 3);
    assert!(!order.contains_key(&unused));
    assert!(order[&sum] < order[&a]);
    assert!(order[&sum] < order[&b]);
}
