use posh::compile::{compile_to_program_def, FragmentShaderOutput, UniformVisitor, VertexShaderOutput, VertexVisitor};
use posh::dag::{BinaryOp, BuiltInType, Expr, ExprGraph, SamplerType, StructType, Type};
use posh::gen::scope_form::{ScopeForm, VarInit};
use posh::gen::simplified_expr::{SimplifiedExpr, VarId};
use posh::gen::struct_registry::StructRegistry;
use posh::gen::topo::topological_ordering;
use posh::gen::var_form::VarForm;
use posh::gl::raw::program::validate_program_def;

fn f32_ty() -> Type {
    Type::BuiltIn(BuiltInType::F32)
}

fn bool_ty() -> Type {
    Type::BuiltIn(BuiltInType::Bool)
}

/// `r = (c ? (a + a) * (a + a) : a) + a`.
fn branch_graph() -> (ExprGraph, usize) {
    let mut graph = ExprGraph::new();
    let a = graph.add(Expr::Arg { name: "a".to_string(), ty: f32_ty() });
    let c = graph.add(Expr::Arg { name: "c".to_string(), ty: bool_ty() });
    let s = graph.add(Expr::Binary { left: a, op: BinaryOp::Add, right: a, ty: f32_ty() });
    let t = graph.add(Expr::Binary { left: s, op: BinaryOp::Mul, right: s, ty: f32_ty() });
    let b = graph.add(Expr::Branch { cond: c, yes: t, no: a, ty: f32_ty() });
    let r = graph.add(Expr::Binary { left: b, op: BinaryOp::Add, right: a, ty: f32_ty() });
    (graph, r)
}

#[test]
fn variables_are_never_bare_arguments_and_come_after_their_operands() {
    let (graph, r) = branch_graph();
    let roots = vec![r];
    let reg = StructRegistry::new(&graph, &roots, &Vec::new());
    let vf = VarForm::new(&graph, &reg, &roots);
    let vars = vf.var_exprs();
    assert_eq!(vars.len(), 2);
    assert!(matches!(&vars[0], SimplifiedExpr::Binary { op: BinaryOp::Add, .. }));
    assert!(matches!(&vars[1], SimplifiedExpr::Branch { yes, .. }
        if matches!(&**yes, SimplifiedExpr::Binary { left, .. }
            if matches!(&**left, SimplifiedExpr::Var { id: VarId(0), .. }))));
    for v in vars.iter() {
        assert!(!matches!(v, SimplifiedExpr::Arg { .. } | SimplifiedExpr::ScalarLiteral { .. }));
    }
}

#[test]
fn arm_scopes_are_numbered_as_they_are_made() {
    let (graph, r) = branch_graph();
    let roots = vec![r];
    let reg = StructRegistry::new(&graph, &roots, &Vec::new());
    let vf = VarForm::new(&graph, &reg, &roots);
    let sf = ScopeForm::new(&vf);

    let root = sf.root_scope();
    assert_eq!(root.vars.len(), 1);
    assert_eq!(root.vars[0].0, VarId(1));
    assert!(matches!(root.vars[0].1, VarInit::Branch { yes_id: 1, no_id: 2, .. }));

    let yes = sf.scope(1);
    assert_eq!(yes.parent_id, Some(0));
    assert_eq!(yes.depth, 1);
    assert_eq!(yes.vars.len(), 1);
    assert_eq!(yes.vars[0].0, VarId(0));
    assert!(matches!(yes.result, Some(SimplifiedExpr::Binary { op: BinaryOp::Mul, left, right, .. })
        if matches!(&**left, SimplifiedExpr::Var { id: VarId(0), .. })
            && matches!(&**right, SimplifiedExpr::Var { id: VarId(0), .. })));

    let no = sf.scope(2);
    assert_eq!(no.parent_id, Some(0));
    assert_eq!(no.depth, 1);
    assert!(no.vars.is_empty());
    assert!(matches!(no.result, Some(SimplifiedExpr::Arg { name, .. }) if name == "a"));
}

#[test]
fn structs_of_the_same_name_are_declared_under_distinct_names() {
    let mut graph = ExprGraph::new();
    let first = graph.add_struct(StructType { name: "Pair".to_string(), fields: vec![("a".to_string(), f32_ty())] });
    let second = graph.add_struct(StructType { name: "Pair".to_string(), fields: vec![("b".to_string(), f32_ty())] });
    let x = graph.add(Expr::Arg { name: "x".to_string(), ty: f32_ty() });
    let p = graph.add(Expr::StructLiteral { args: vec![x], ty: first });
    let q = graph.add(Expr::StructLiteral { args: vec![x], ty: second });
    let roots = vec![p, q];
    let reg = StructRegistry::new(&graph, &roots, &Vec::new());
    let defs = reg.defs(&graph);
    assert_eq!(defs.len(), 2);
    assert_ne!(defs[0].0, defs[1].0);
    assert_ne!(reg.name(&graph, first), reg.name(&graph, second));
    assert_eq!(defs[0].0, "Pair_Posh0");
    assert_eq!(defs[1].0, "Pair_Posh1");
}

#[test]
fn a_compiled_program_passes_validation() {
    let mut graph = ExprGraph::new();
    let pos = graph.add(Expr::Arg { name: "pos".to_string(), ty: Type::BuiltIn(BuiltInType::Vec4) });
    let c = graph.add(Expr::Arg { name: "c".to_string(), ty: Type::BuiltIn(BuiltInType::Vec4) });
    let mut uniforms = UniformVisitor::new();
    uniforms.accept_sampler2d("uniforms.tex", SamplerType::Sampler2d);
    uniforms.accept_sampler2d("uniforms.shadow", SamplerType::Sampler2d);
    uniforms.accept_block("uniforms", f32_ty());
    uniforms.accept_block("lights", f32_ty());
    let vertex_output = VertexShaderOutput { position: pos, varying: Vec::new(), point_size: None };
    let fragment_output = FragmentShaderOutput { fragment: vec![("color".to_string(), c)], fragment_depth: None };
    let def = compile_to_program_def(&graph, uniforms, VertexVisitor::new(), &vertex_output, &fragment_output);
    assert_eq!(def.uniform_sampler_defs[1].texture_unit, 1);
    assert_eq!(def.uniform_block_defs[1].location, 1);
    assert!(validate_program_def(&def).is_ok());
}

/// `(y + y) + (x + x)` with `x = p * p` added before `y = p + p`.
fn shared_graph() -> (ExprGraph, usize) {
    let mut graph = ExprGraph::new();
    let p = graph.add(Expr::Arg { name: "p".to_string(), ty: f32_ty() });
    let x = graph.add(Expr::Binary { left: p, op: BinaryOp::Mul, right: p, ty: f32_ty() });
    let y = graph.add(Expr::Binary { left: p, op: BinaryOp::Add, right: p, ty: f32_ty() });
    let yy = graph.add(Expr::Binary { left: y, op: BinaryOp::Add, right: y, ty: f32_ty() });
    let xx = graph.add(Expr::Binary { left: x, op: BinaryOp::Add, right: x, ty: f32_ty() });
    let r = graph.add(Expr::Binary { left: yy, op: BinaryOp::Add, right: xx, ty: f32_ty() });
    (graph, r)
}

#[test]
fn variables_are_numbered_in_depth_first_postorder() {
    let (graph, r) = shared_graph();
    let roots = vec![r];
    let reg = StructRegistry::new(&graph, &roots, &Vec::new());
    let vf = VarForm::new(&graph, &reg, &roots);
    let vars = vf.var_exprs();
    assert_eq!(vars.len(), 2);
    assert!(matches!(&vars[0], SimplifiedExpr::Binary { op: BinaryOp::Add, .. }));
    assert!(matches!(&vars[1], SimplifiedExpr::Binary { op: BinaryOp::Mul, .. }));
}

#[test]
fn topological_positions_follow_the_reversed_postorder() {
    let (graph, r) = shared_graph();
    let m = topological_ordering(&graph, &vec![r]);
    assert_eq!(m.len(), 6);
    assert_eq!(m[&5], 0);
    assert_eq!(m[&4], 1);
    assert_eq!(m[&1], 2);
    assert_eq!(m[&3], 3);
    assert_eq!(m[&2], 4);
    assert_eq!(m[&0], 5);
}

#[test]
fn registry_lists_each_struct_once_at_its_position() {
    let mut graph = ExprGraph::new();
    let inner = graph.add_struct(StructType { name: "Inner".to_string(), fields: vec![("a".to_string(), f32_ty())] });
    let outer = graph.add_struct(StructType {
        name: "Outer".to_string(),
        fields: vec![("i".to_string(), Type::Struct(inner)), ("j".to_string(), Type::Struct(inner))],
    });
    let u = graph.add(Expr::Arg { name: "u".to_string(), ty: Type::Struct(outer) });
    let v = graph.add(Expr::Arg { name: "v".to_string(), ty: Type::Struct(inner) });
    let roots = vec![u, v];
    let reg = StructRegistry::new(&graph, &roots, &Vec::new());
    let defs = reg.defs(&graph);
    assert_eq!(defs.len(), 2);
    assert_eq!(defs[0].1, inner);
    assert_eq!(defs[1].1, outer);
    for (name, s) in defs.iter() {
        assert_eq!(*name, reg.name(&graph, *s));
    }
}
