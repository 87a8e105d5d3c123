use vstd::prelude::*;

use crate::dag::{type_refs_below, BuiltInType, ExprGraph, SamplerType, Type};

use super::names::{decimal_text, push_decimal, struct_name_text, var_name, var_name_text};
use super::scope_form::{Scope, ScopeForm, VarInit};
use super::simplified_expr::{expr_text, expr_view, lemma_list_view, list_view, write_expr, ExprView, SimplifiedExpr};
use super::struct_registry::{field_adj, is_collected, struct_of, StructRegistry};
use super::topo::{dep_adj, is_edge, is_path, lemma_reaches_refl, pred_adj, reaches, step_ok};
use super::var_form::{reachable, registry_covers, VarForm};

verus! {

/// A uniform block of a shader stage, holding a single field.
pub struct UniformBlockDef {
    /// The name of the uniform block.
    pub block_name: String,
    /// The name of the single field within the uniform block.
    pub arg_name: String,
    /// The type of the field.
    pub ty: Type,
}

/// The GLSL name of a built-in type.
pub open spec fn built_in_text(ty: BuiltInType) -> Seq<char> {
    match ty {
        BuiltInType::F32 => "float"@,
        BuiltInType::I32 => "int"@,
        BuiltInType::U32 => "uint"@,
        BuiltInType::Bool => "bool"@,
        BuiltInType::Vec2 => "vec2"@,
        BuiltInType::IVec2 => "ivec2"@,
        BuiltInType::UVec2 => "uvec2"@,
        BuiltInType::BVec2 => "bvec2"@,
        BuiltInType::Vec3 => "vec3"@,
        BuiltInType::IVec3 => "ivec3"@,
        BuiltInType::UVec3 => "uvec3"@,
        BuiltInType::BVec3 => "bvec3"@,
        BuiltInType::Vec4 => "vec4"@,
        BuiltInType::IVec4 => "ivec4"@,
        BuiltInType::UVec4 => "uvec4"@,
        BuiltInType::BVec4 => "bvec4"@,
        BuiltInType::Mat2 => "mat2"@,
        BuiltInType::Mat3 => "mat3"@,
        BuiltInType::Mat4 => "mat4"@,
        BuiltInType::Sampler(SamplerType::Sampler2d) => "sampler2D"@,
    }
}

/// The GLSL names of the built-in types: `float`, `int`, `uint` and `bool`
/// for the scalars; `vecN`, prefixed by `i`, `u` or `b` for integer,
/// unsigned and boolean components, for the vectors of `N` components;
/// `matN` for the `N`×`N` matrices; `sampler2D` for the sampler.
pub proof fn lemma_built_in_names(ty: BuiltInType)
    ensures
        ty is F32 ==> built_in_text(ty) == "float"@,
        ty is I32 ==> built_in_text(ty) == "int"@,
        ty is U32 ==> built_in_text(ty) == "uint"@,
        ty is Bool ==> built_in_text(ty) == "bool"@,
        ty is Vec2 ==> built_in_text(ty) == "vec"@ + "2"@,
        ty is Vec3 ==> built_in_text(ty) == "vec"@ + "3"@,
        ty is Vec4 ==> built_in_text(ty) == "vec"@ + "4"@,
        ty is IVec2 ==> built_in_text(ty) == "i"@ + "vec"@ + "2"@,
        ty is IVec3 ==> built_in_text(ty) == "i"@ + "vec"@ + "3"@,
        ty is IVec4 ==> built_in_text(ty) == "i"@ + "vec"@ + "4"@,
        ty is UVec2 ==> built_in_text(ty) == "u"@ + "vec"@ + "2"@,
        ty is UVec3 ==> built_in_text(ty) == "u"@ + "vec"@ + "3"@,
        ty is UVec4 ==> built_in_text(ty) == "u"@ + "vec"@ + "4"@,
        ty is BVec2 ==> built_in_text(ty) == "b"@ + "vec"@ + "2"@,
        ty is BVec3 ==> built_in_text(ty) == "b"@ + "vec"@ + "3"@,
        ty is BVec4 ==> built_in_text(ty) == "b"@ + "vec"@ + "4"@,
        ty is Mat2 ==> built_in_text(ty) == "mat"@ + "2"@,
        ty is Mat3 ==> built_in_text(ty) == "mat"@ + "3"@,
        ty is Mat4 ==> built_in_text(ty) == "mat"@ + "4"@,
        ty is Sampler ==> built_in_text(ty) == "sampler2D"@,
{
    reveal_strlit("vec");
    reveal_strlit("mat");
    reveal_strlit("i");
    reveal_strlit("u");
    reveal_strlit("b");
    reveal_strlit("2");
    reveal_strlit("3");
    reveal_strlit("4");
    reveal_strlit("vec2");
    reveal_strlit("vec3");
    reveal_strlit("vec4");
    reveal_strlit("ivec2");
    reveal_strlit("ivec3");
    reveal_strlit("ivec4");
    reveal_strlit("uvec2");
    reveal_strlit("uvec3");
    reveal_strlit("uvec4");
    reveal_strlit("bvec2");
    reveal_strlit("bvec3");
    reveal_strlit("bvec4");
    reveal_strlit("mat2");
    reveal_strlit("mat3");
    reveal_strlit("mat4");
    assert("vec"@ + "2"@ =~= "vec2"@);
    assert("vec"@ + "3"@ =~= "vec3"@);
    assert("vec"@ + "4"@ =~= "vec4"@);
    assert("i"@ + "vec"@ + "2"@ =~= "ivec2"@);
    assert("i"@ + "vec"@ + "3"@ =~= "ivec3"@);
    assert("i"@ + "vec"@ + "4"@ =~= "ivec4"@);
    assert("u"@ + "vec"@ + "2"@ =~= "uvec2"@);
    assert("u"@ + "vec"@ + "3"@ =~= "uvec3"@);
    assert("u"@ + "vec"@ + "4"@ =~= "uvec4"@);
    assert("b"@ + "vec"@ + "2"@ =~= "bvec2"@);
    assert("b"@ + "vec"@ + "3"@ =~= "bvec3"@);
    assert("b"@ + "vec"@ + "4"@ =~= "bvec4"@);
    assert("mat"@ + "2"@ =~= "mat2"@);
    assert("mat"@ + "3"@ =~= "mat3"@);
    assert("mat"@ + "4"@ =~= "mat4"@);
}

/// An array type is written as its element type followed by its size in
/// brackets, and a registered struct type by its registered name: the
/// struct's own name, `_Posh` and its position.
pub proof fn lemma_type_names(reg: &StructRegistry, graph: &ExprGraph, ty: Type)
    ensures
        ty matches Type::Array(e, n) ==> type_text(reg, graph, ty) == type_text(reg, graph, *e) + "["@ + decimal_text(
            n as nat,
        ) + "]"@,
        forall|id: usize|
            ty == Type::Struct(id) && id < graph.structs().len() && #[trigger] reg.position(id) is Some ==> type_text(
                reg,
                graph,
                ty,
            ) == graph.structs()[id as int].name@ + "_Posh"@ + decimal_text(reg.position(id)->0 as nat),
        ty matches Type::BuiltIn(b) ==> type_text(reg, graph, ty) == built_in_text(b),
{
}

fn built_in_name(ty: BuiltInType) -> (r: &'static str)
    ensures
        r@ == built_in_text(ty),
{
    match ty {
        BuiltInType::F32 => "float",
        BuiltInType::I32 => "int",
        BuiltInType::U32 => "uint",
        BuiltInType::Bool => "bool",
        BuiltInType::Vec2 => "vec2",
        BuiltInType::IVec2 => "ivec2",
        BuiltInType::UVec2 => "uvec2",
        BuiltInType::BVec2 => "bvec2",
        BuiltInType::Vec3 => "vec3",
        BuiltInType::IVec3 => "ivec3",
        BuiltInType::UVec3 => "uvec3",
        BuiltInType::BVec3 => "bvec3",
        BuiltInType::Vec4 => "vec4",
        BuiltInType::IVec4 => "ivec4",
        BuiltInType::UVec4 => "uvec4",
        BuiltInType::BVec4 => "bvec4",
        BuiltInType::Mat2 => "mat2",
        BuiltInType::Mat3 => "mat3",
        BuiltInType::Mat4 => "mat4",
        BuiltInType::Sampler(SamplerType::Sampler2d) => "sampler2D",
    }
}

/// The GLSL name of struct `id`: its registered name, or its own name where
/// the registry does not hold it; a struct that the graph does not hold has
/// no name.
pub open spec fn struct_text(reg: &StructRegistry, graph: &ExprGraph, id: usize) -> Seq<char> {
    if id < graph.structs().len() {
        match reg.position(id) {
            Some(p) => struct_name_text(graph.structs()[id as int].name@, p as nat),
            None => graph.structs()[id as int].name@,
        }
    } else {
        seq![]
    }
}

/// The GLSL name of a type; an array is its element type followed by its
/// size in brackets.
pub open spec fn type_text(reg: &StructRegistry, graph: &ExprGraph, ty: Type) -> Seq<char>
    decreases ty,
{
    match ty {
        Type::BuiltIn(b) => built_in_text(b),
        Type::Struct(id) => struct_text(reg, graph, id),
        Type::Array(elem, n) => type_text(reg, graph, *elem) + "["@ + decimal_text(n as nat) + "]"@,
    }
}

/// The GLSL name of `ty`.
fn glsl_type_name(reg: &StructRegistry, graph: &ExprGraph, ty: &Type) -> (r: String)
    requires
        reg.wf(graph),
    ensures
        r@ == type_text(reg, graph, *ty),
    decreases ty,
{
    match ty {
        Type::BuiltIn(b) => String::from_str(built_in_name(*b)),
        Type::Struct(id) => {
            if *id >= graph.num_structs() {
                String::new()
            } else if reg.is_registered(graph, *id) {
                reg.name(graph, *id)
            } else {
                graph.struct_type(*id).name.clone()
            }
        },
        Type::Array(elem, n) => {
            let mut s = glsl_type_name(reg, graph, elem);
            s.append("[");
            push_decimal(&mut s, *n);
            s.append("]");
            s
        },
    }
}

/// Four spaces for each level of nesting.
pub open spec fn indent_text(depth: nat) -> Seq<char>
    decreases depth,
{
    if depth == 0 {
        seq![]
    } else {
        indent_text((depth - 1) as nat) + "    "@
    }
}

fn push_indent(f: &mut String, depth: usize)
    ensures
        final(f)@ == old(f)@ + indent_text(depth as nat),
{
    let mut i: usize = 0;
    while i < depth
        invariant
            i <= depth,
            f@ == old(f)@ + indent_text(i as nat),
        decreases depth - i,
    {
        f.append("    ");
        i = i + 1;
    }
}

/// The text of the result of scope `s`, if it has one.
pub open spec fn result_text(scopes: Seq<Scope>, s: int) -> Seq<char> {
    match scopes[s].result {
        Some(r) => expr_text(r@),
        None => seq![],
    }
}

/// The declaration of the `j`-th variable of scope `s` at nesting `depth`;
/// a conditional variable is declared, then set in an `if` whose two blocks
/// hold its arm scopes.
pub open spec fn var_text(
    reg: &StructRegistry,
    graph: &ExprGraph,
    scopes: Seq<Scope>,
    s: int,
    j: int,
    depth: nat,
) -> Seq<char>
    decreases scopes.len() - s, 0int, 0int,
{
    if 0 <= s < scopes.len() && 0 <= j < scopes[s].vars.len() {
        let (id, init) = scopes[s].vars@[j];
        let name = var_name_text(id.0 as nat);
        let ind = indent_text(depth);
        match init {
            VarInit::Expr(e) => ind + type_text(reg, graph, e.spec_ty()) + " "@ + name + " = "@ + expr_text(e@)
                + ";\n"@,
            VarInit::Branch { cond, yes_id, no_id, ty } => {
                if s < yes_id < scopes.len() && s < no_id < scopes.len() {
                    ind + type_text(reg, graph, *ty) + " "@ + name + ";
"@ + ind + "if "@ + expr_text(cond@)
                        + " {\n"@ + arm_text(reg, graph, scopes, yes_id as int, depth + 1, name) + (ind
                        + "} else {\n"@) + arm_text(reg, graph, scopes, no_id as int, depth + 1, name) + (ind
                        + "}\n"@)
                } else {
                    seq![]
                }
            },
        }
    } else {
        seq![]
    }
}

/// The declarations of the first `j` variables of scope `s`.
pub open spec fn vars_text(
    reg: &StructRegistry,
    graph: &ExprGraph,
    scopes: Seq<Scope>,
    s: int,
    j: int,
    depth: nat,
) -> Seq<char>
    decreases scopes.len() - s, 1int, j,
{
    if 0 <= s < scopes.len() && 0 < j <= scopes[s].vars.len() {
        vars_text(reg, graph, scopes, s, j - 1, depth) + var_text(reg, graph, scopes, s, j - 1, depth)
    } else {
        seq![]
    }
}

/// The declarations of all variables of scope `s`.
pub open spec fn scope_text(reg: &StructRegistry, graph: &ExprGraph, scopes: Seq<Scope>, s: int, depth: nat) -> Seq<
    char,
> {
    vars_text(reg, graph, scopes, s, scopes[s].vars.len() as int, depth)
}

/// Writes the `j`-th variable of scope `s`.
#[verifier::rlimit(60)]
fn write_var(
    f: &mut String,
    reg: &StructRegistry,
    graph: &ExprGraph,
    sf: &ScopeForm,
    s: usize,
    j: usize,
    depth: usize,
)
    requires
        reg.wf(graph),
        sf.nested(),
        s < sf.scopes_view().len(),
        j < sf.scopes_view()[s as int].vars.len(),
        depth <= s + 1,
    ensures
        final(f)@ == old(f)@ + var_text(reg, graph, sf.scopes_view(), s as int, j as int, depth as nat),
    decreases sf.scopes_view().len() - s, 0int, 0int,
{
    let scope = sf.scope(s);
    let entry = &scope.vars[j];
    let var_id = entry.0;
    let name = var_name(var_id.0);
    let ghost scopes = sf.scopes_view();
    assert(scopes[s as int].vars@[j as int] == *entry);
    match &entry.1 {
        VarInit::Expr(expr) => {
            write_expr_var(f, reg, graph, expr, &name, depth);
        },
        VarInit::Branch { cond, yes_id, no_id, ty } => {
            assert(s < *yes_id && s < *no_id);
            let ghost start = f@;
            write_branch_head(f, reg, graph, cond, ty, &name, depth);
            let ghost head = f@;
            write_arm(f, reg, graph, sf, *yes_id, depth + 1, &name);
            let ghost mid = f@;
            push_indent(f, depth);
            f.append("} else {\n");
            let ghost mid2 = f@;
            assert(mid2 == mid + (indent_text(depth as nat) + "} else {\n"@));
            write_arm(f, reg, graph, sf, *no_id, depth + 1, &name);
            let ghost mid3 = f@;
            push_indent(f, depth);
            f.append("}\n");
            assert(f@ == mid3 + (indent_text(depth as nat) + "}\n"@));
            assert(f@ == head + arm_text(reg, graph, scopes, *yes_id as int, (depth + 1) as nat, name@) + (
            indent_text(depth as nat) + "} else {\n"@) + arm_text(reg, graph, scopes, *no_id as int, (depth + 1) as nat, name@)
                + (indent_text(depth as nat) + "}\n"@));
        },
    }
}

/// Writes the declaration of a variable set by an expression.
fn write_expr_var(f: &mut String, reg: &StructRegistry, graph: &ExprGraph, expr: &SimplifiedExpr, name: &String, depth: usize)
    requires
        reg.wf(graph),
    ensures
        final(f)@ == old(f)@ + (indent_text(depth as nat) + type_text(reg, graph, expr.spec_ty()) + " "@ + name@
            + " = "@ + expr_text(expr@) + ";\n"@),
{
    let ghost start = f@;
    push_indent(f, depth);
    let ty = expr.ty();
    let ty_name = glsl_type_name(reg, graph, &ty);
    f.append(ty_name.as_str());
    f.append(" ");
    f.append(name.as_str());
    f.append(" = ");
    write_expr(f, expr);
    f.append(";\n");
}

/// Writes the declaration of a conditional variable and the start of its
/// `if`.
fn write_branch_head(
    f: &mut String,
    reg: &StructRegistry,
    graph: &ExprGraph,
    cond: &SimplifiedExpr,
    ty: &Type,
    name: &String,
    depth: usize,
)
    requires
        reg.wf(graph),
    ensures
        final(f)@ == old(f)@ + (indent_text(depth as nat) + type_text(reg, graph, *ty) + " "@ + name@ + ";\n"@
            + indent_text(depth as nat) + "if "@ + expr_text(cond@) + " {\n"@),
{
    let ty_name = glsl_type_name(reg, graph, ty);
    push_indent(f, depth);
    f.append(ty_name.as_str());
    f.append(" ");
    f.append(name.as_str());
    f.append(";\n");
    push_indent(f, depth);
    f.append("if ");
    write_expr(f, cond);
    f.append(" {\n");
}

/// An arm scope `s`: its variables, then the assignment of its result to
/// the variable `name`.
pub open spec fn arm_text(
    reg: &StructRegistry,
    graph: &ExprGraph,
    scopes: Seq<Scope>,
    s: int,
    depth: nat,
    name: Seq<char>,
) -> Seq<char>
    decreases scopes.len() - s, 2int, 0int,
{
    if 0 <= s < scopes.len() {
        vars_text(reg, graph, scopes, s, scopes[s].vars.len() as int, depth) + indent_text(depth) + name + " = "@
            + result_text(scopes, s) + ";\n"@
    } else {
        seq![]
    }
}

/// Writes arm scope `s` of a conditional that sets variable `name`.
fn write_arm(
    f: &mut String,
    reg: &StructRegistry,
    graph: &ExprGraph,
    sf: &ScopeForm,
    s: usize,
    depth: usize,
    name: &String,
)
    requires
        reg.wf(graph),
        sf.nested(),
        s < sf.scopes_view().len(),
        depth <= s + 1,
    ensures
        final(f)@ == old(f)@ + arm_text(reg, graph, sf.scopes_view(), s as int, depth as nat, name@),
    decreases sf.scopes_view().len() - s, 2int, 0int,
{
    let ghost start = f@;
    write_scope(f, reg, graph, sf, s, depth);
    push_indent(f, depth);
    f.append(name.as_str());
    f.append(" = ");
    write_result(f, sf, s);
    f.append(";\n");
}

/// Writes the result of scope `s`.
fn write_result(f: &mut String, sf: &ScopeForm, s: usize)
    requires
        s < sf.scopes_view().len(),
    ensures
        final(f)@ == old(f)@ + result_text(sf.scopes_view(), s as int),
{
    let scope = sf.scope(s);
    match scope.result {
        Some(r) => write_expr(f, r),
        None => {},
    }
}

/// Writes the variables of scope `s`, in order.
fn write_scope(f: &mut String, reg: &StructRegistry, graph: &ExprGraph, sf: &ScopeForm, s: usize, depth: usize)
    requires
        reg.wf(graph),
        sf.nested(),
        s < sf.scopes_view().len(),
        depth <= s + 1,
    ensures
        final(f)@ == old(f)@ + scope_text(reg, graph, sf.scopes_view(), s as int, depth as nat),
    decreases sf.scopes_view().len() - s, 1int, 0int,
{
    let scope = sf.scope(s);
    let n = scope.vars.len();
    let mut j: usize = 0;
    while j < n
        invariant
            reg.wf(graph),
            sf.nested(),
                s < sf.scopes_view().len(),
            depth <= s + 1,
            n == sf.scopes_view()[s as int].vars.len(),
            j <= n,
            f@ == old(f)@ + vars_text(reg, graph, sf.scopes_view(), s as int, j as int, depth as nat),
        decreases n - j,
    {
        write_var(f, reg, graph, sf, s, j, depth);
        j = j + 1;
    }
}


/// The fields of a struct, one line each.
pub open spec fn fields_text(reg: &StructRegistry, graph: &ExprGraph, fields: Seq<(String, Type)>) -> Seq<char>
    decreases fields.len(),
{
    if fields.len() == 0 {
        seq![]
    } else {
        fields_text(reg, graph, fields.drop_last()) + "    "@ + type_text(reg, graph, fields.last().1) + " "@
            + fields.last().0@ + ";\n"@
    }
}

/// The definition of the `p`-th registered struct.
pub open spec fn struct_def_text(reg: &StructRegistry, graph: &ExprGraph, p: int) -> Seq<char> {
    let st = graph.structs()[reg.defs_view()[p] as int];
    "struct "@ + struct_name_text(st.name@, p as nat) + " {\n"@ + fields_text(reg, graph, st.fields@) + "};\n"@
}

/// The definitions of the first `n` registered structs.
pub open spec fn struct_defs_text(reg: &StructRegistry, graph: &ExprGraph, n: int) -> Seq<char>
    decreases n,
{
    if n <= 0 {
        seq![]
    } else {
        struct_defs_text(reg, graph, n - 1) + struct_def_text(reg, graph, n - 1)
    }
}

/// Writes the definitions of all registered structs, in their order.
fn write_struct_defs(f: &mut String, reg: &StructRegistry, graph: &ExprGraph)
    requires
        reg.wf(graph),
    ensures
        final(f)@ == old(f)@ + struct_defs_text(reg, graph, reg.defs_view().len() as int),
{
    let defs = reg.defs(graph);
    let mut p: usize = 0;
    while p < defs.len()
        invariant
            reg.wf(graph),
            defs.len() == reg.defs_view().len(),
            forall|q: int|
                0 <= q < defs.len() ==> (#[trigger] defs@[q]).1 == reg.defs_view()[q] && defs@[q].1
                    < graph.structs().len() && defs@[q].0@ == struct_name_text(
                    graph.structs()[reg.defs_view()[q] as int].name@,
                    q as nat,
                ),
            p <= defs.len(),
            f@ == old(f)@ + struct_defs_text(reg, graph, p as int),
        decreases defs.len() - p,
    {
        let ghost before = f@;
        let name = &defs[p].0;
        let st = graph.struct_type(defs[p].1);
        f.append("struct ");
        f.append(name.as_str());
        f.append(" {\n");
        let ghost head = f@;
        let mut k: usize = 0;
        while k < st.fields.len()
            invariant
                reg.wf(graph),
                k <= st.fields.len(),
                f@ == head + fields_text(reg, graph, st.fields@.take(k as int)),
            decreases st.fields.len() - k,
        {
            let field = &st.fields[k];
            let ty_name = glsl_type_name(reg, graph, &field.1);
            f.append("    ");
            f.append(ty_name.as_str());
            f.append(" ");
            f.append(field.0.as_str());
            f.append(";\n");
            proof {
                let t = st.fields@.take(k + 1);
                assert(t.drop_last() == st.fields@.take(k as int));
                assert(t.last() == st.fields@[k as int]);
            }
            k = k + 1;
        }
        assert(st.fields@.take(st.fields.len() as int) == st.fields@);
        f.append("};\n");
        p = p + 1;
    }
}

/// The uniform blocks, each holding its single field.
pub open spec fn blocks_text(reg: &StructRegistry, graph: &ExprGraph, blocks: Seq<UniformBlockDef>) -> Seq<char>
    decreases blocks.len(),
{
    if blocks.len() == 0 {
        seq![]
    } else {
        let b = blocks.last();
        blocks_text(reg, graph, blocks.drop_last()) + "uniform "@ + b.block_name@ + " {\n"@ + "    "@ + type_text(
            reg,
            graph,
            b.ty,
        ) + " "@ + b.arg_name@ + ";\n"@ + "};\n"@
    }
}

/// The declarations of the attributes: qualifier, type and name.
pub open spec fn attrs_text(reg: &StructRegistry, graph: &ExprGraph, attrs: Seq<(String, String, Type)>) -> Seq<char>
    decreases attrs.len(),
{
    if attrs.len() == 0 {
        seq![]
    } else {
        let a = attrs.last();
        attrs_text(reg, graph, attrs.drop_last()) + a.0@ + " "@ + type_text(reg, graph, a.2) + " "@ + a.1@ + ";\n"@
    }
}

/// The assignments of the outputs, each to the text of its root.
pub open spec fn outputs_text(names: Seq<String>, roots: Seq<ExprView>) -> Seq<char>
    decreases names.len(),
{
    if names.len() == 0 || roots.len() == 0 {
        seq![]
    } else {
        outputs_text(names.drop_last(), roots.drop_last()) + "    "@ + names.last()@ + " = "@ + expr_text(roots.last())
            + ";\n"@
    }
}

/// A whole shader stage: struct definitions, uniform blocks, attributes,
/// and a `main` that computes the variables of the scopes and assigns the
/// outputs.
pub open spec fn stage_text(
    reg: &StructRegistry,
    graph: &ExprGraph,
    scopes: Seq<Scope>,
    roots: Seq<ExprView>,
    blocks: Seq<UniformBlockDef>,
    attrs: Seq<(String, String, Type)>,
    names: Seq<String>,
) -> Seq<char> {
    struct_defs_text(reg, graph, reg.defs_view().len() as int) + "\n"@ + blocks_text(reg, graph, blocks) + "\n"@
        + attrs_text(reg, graph, attrs) + "\n"@ + "void main() {\n"@ + scope_text(reg, graph, scopes, 0, 1)
        + outputs_text(names, roots) + "}\n"@
}

/// The nodes of the outputs.
pub open spec fn output_nodes(outputs: Seq<(String, usize)>) -> Seq<usize> {
    outputs.map_values(|o: (String, usize)| o.1)
}

/// The names of the outputs.
pub open spec fn output_names(outputs: Seq<(String, usize)>) -> Seq<String> {
    outputs.map_values(|o: (String, usize)| o.0)
}

/// The types of the uniform blocks.
pub open spec fn block_types(blocks: Seq<UniformBlockDef>) -> Seq<Type> {
    blocks.map_values(|b: UniformBlockDef| b.ty)
}

/// A path along operands is a path along dependencies.
proof fn lemma_pred_path_dep(graph: &ExprGraph, from: int, to: int)
    requires
        reaches(pred_adj(graph), from, to),
    ensures
        reaches(dep_adj(graph), from, to),
{
    let pa = pred_adj(graph);
    let da = dep_adj(graph);
    let p = choose|p: Seq<int>| #[trigger] is_path(pa, p) && p[0] == from && p.last() == to;
    assert forall|i: int| 0 <= i < p.len() - 1 implies #[trigger] step_ok(da, p, i) by {
        assert(step_ok(pa, p, i));
        let a = p[i];
        let k = choose|k: int| 0 <= k < pa[a].len() && #[trigger] pa[a][k] as int == p[i + 1];
        let e = graph.nodes()[a];
        match e {
            crate::dag::Expr::CallFuncDef { def, args } => {
                assert(da[a][k] == args@[k]);
            },
            _ => {
                assert(da[a] == pa[a]);
            },
        }
        assert(da[a][k] as int == p[i + 1]);
    }
    assert(is_path(da, p));
}

/// A registry built for some roots holds the struct of every struct literal
/// that the roots reach.
proof fn lemma_registry_covers(reg: &StructRegistry, graph: &ExprGraph, roots: Seq<usize>, extra: Seq<Type>)
    requires
        graph.wf(),
        reg.built_for(graph, roots, extra),
    ensures
        registry_covers(reg, graph, roots),
{
    assert forall|x: int|
        0 <= x < graph.nodes().len() && reachable(graph, roots, x) && (#[trigger] graph.nodes()[x] is StructLiteral)
            implies reg.position(graph.nodes()[x]->StructLiteral_ty) is Some by {
        let s = graph.nodes()[x]->StructLiteral_ty;
        let r = choose|r: int| 0 <= r < roots.len() && #[trigger] reaches(pred_adj(graph), roots[r] as int, x);
        lemma_pred_path_dep(graph, roots[r] as int, x);
        assert(graph.ty_at(x) == Type::Struct(s));
        assert(struct_of(graph.ty_at(x)) == Some(s));
        assert(is_collected(graph, roots, extra, s));
        lemma_reaches_refl(field_adj(graph), s as int);
        assert(graph.nodes()[x].types_below(graph.structs().len() as int));
    }
}

/// Writes the uniform blocks.
fn write_uniform_blocks(f: &mut String, reg: &StructRegistry, graph: &ExprGraph, uniform_block_defs: &Vec<UniformBlockDef>)
    requires
        reg.wf(graph),
    ensures
        final(f)@ == old(f)@ + blocks_text(reg, graph, uniform_block_defs@),
{
    let mut b: usize = 0;
    while b < uniform_block_defs.len()
        invariant
            reg.wf(graph),
            b <= uniform_block_defs.len(),
            f@ == old(f)@ + blocks_text(reg, graph, uniform_block_defs@.take(b as int)),
        decreases uniform_block_defs.len() - b,
    {
        let def = &uniform_block_defs[b];
        let ty_name = glsl_type_name(reg, graph, &def.ty);
        f.append("uniform ");
        f.append(def.block_name.as_str());
        f.append(" {\n");
        f.append("    ");
        f.append(ty_name.as_str());
        f.append(" ");
        f.append(def.arg_name.as_str());
        f.append(";\n");
        f.append("};\n");
        proof {
            let t = uniform_block_defs@.take(b + 1);
            assert(t.drop_last() == uniform_block_defs@.take(b as int));
            assert(t.last() == uniform_block_defs@[b as int]);
        }
        b = b + 1;
    }
    assert(uniform_block_defs@.take(uniform_block_defs.len() as int) == uniform_block_defs@);
}

/// Writes the attribute declarations.
fn write_attributes(f: &mut String, reg: &StructRegistry, graph: &ExprGraph, attributes: &Vec<(String, String, Type)>)
    requires
        reg.wf(graph),
    ensures
        final(f)@ == old(f)@ + attrs_text(reg, graph, attributes@),
{
    let mut a: usize = 0;
    while a < attributes.len()
        invariant
            reg.wf(graph),
            a <= attributes.len(),
            f@ == old(f)@ + attrs_text(reg, graph, attributes@.take(a as int)),
        decreases attributes.len() - a,
    {
        let attr = &attributes[a];
        let ty_name = glsl_type_name(reg, graph, &attr.2);
        f.append(attr.0.as_str());
        f.append(" ");
        f.append(ty_name.as_str());
        f.append(" ");
        f.append(attr.1.as_str());
        f.append(";\n");
        proof {
            let t = attributes@.take(a + 1);
            assert(t.drop_last() == attributes@.take(a as int));
            assert(t.last() == attributes@[a as int]);
        }
        a = a + 1;
    }
    assert(attributes@.take(attributes.len() as int) == attributes@);
}

/// Writes the assignments of the outputs.
fn write_outputs(f: &mut String, outputs: &Vec<(String, usize)>, roots: &Vec<SimplifiedExpr>)
    requires
        outputs.len() == roots.len(),
    ensures
        final(f)@ == old(f)@ + outputs_text(output_names(outputs@), list_view(roots@)),
{
    proof {
        lemma_list_view(roots@);
    }
    let ghost names = output_names(outputs@);
    let ghost rv = list_view(roots@);
    let mut o: usize = 0;
    while o < outputs.len()
        invariant
            o <= outputs.len(),
            outputs.len() == roots.len(),
            names == output_names(outputs@),
            names.len() == outputs.len(),
            rv == list_view(roots@),
            rv.len() == roots.len(),
            forall|j: int| 0 <= j < roots.len() ==> #[trigger] rv[j] == expr_view(roots@[j]),
            f@ == old(f)@ + outputs_text(names.take(o as int), rv.take(o as int)),
        decreases outputs.len() - o,
    {
        f.append("    ");
        f.append(outputs[o].0.as_str());
        f.append(" = ");
        write_expr(f, &roots[o]);
        f.append(";\n");
        proof {
            let tn = names.take(o + 1);
            let tr = rv.take(o + 1);
            assert(tn.drop_last() == names.take(o as int));
            assert(tr.drop_last() == rv.take(o as int));
            assert(tn.last() == outputs@[o as int].0);
            assert(tr.last() == rv[o as int]);
        }
        o = o + 1;
    }
    assert(names.take(o as int) == names);
    assert(rv.take(o as int) == rv);
}

/// `after` is `before` followed by a shader stage for the nodes `outputs` of
/// `graph`: with the struct registry, variable form and scope form that the
/// code generator builds for them. Variables and scopes are numbered as the
/// generator numbers them; of the struct declarations, any order in which
/// each struct follows the structs of its fields is admitted.
pub open spec fn stage_source(
    graph: &ExprGraph,
    blocks: Seq<UniformBlockDef>,
    attrs: Seq<(String, String, Type)>,
    outputs: Seq<(String, usize)>,
    before: Seq<char>,
    after: Seq<char>,
) -> bool {
    exists|reg: StructRegistry, vf: VarForm, sf: ScopeForm|
        {
            &&& reg.built_for(graph, output_nodes(outputs), block_types(blocks))
            &&& vf.is_form_of(graph, &reg, output_nodes(outputs))
            &&& vf.numbered_in_order(graph, output_nodes(outputs))
            &&& sf.arranges(&vf)
            &&& sf.numbered_as_made(&vf)
            &&& after == before + #[trigger] stage_text(
                &reg,
                graph,
                sf.scopes_view(),
                vf.roots_view(),
                blocks,
                attrs,
                output_names(outputs),
            )
        }
}

/// `text` holds a line of `main` that assigns to `name`.
pub open spec fn assigns(text: Seq<char>, name: Seq<char>) -> bool {
    exists|pre: Seq<char>, t: Seq<char>, post: Seq<char>| text == pre + "    "@ + name + " = "@ + t + ";\n"@ + post
}

/// The last line of `main`, which ends `text`, assigns to `name`.
pub open spec fn ends_assigning(text: Seq<char>, name: Seq<char>) -> bool {
    exists|pre: Seq<char>, t: Seq<char>| text == pre + "    "@ + name + " = "@ + t + ";\n}\n"@
}

/// Each output is assigned on a line of its own.
proof fn lemma_outputs_text_lines(names: Seq<String>, roots: Seq<ExprView>, i: int)
    requires
        names.len() == roots.len(),
        0 <= i < names.len(),
    ensures
        exists|pre: Seq<char>, post: Seq<char>|
            outputs_text(names, roots) == pre + "    "@ + names[i]@ + " = "@ + expr_text(roots[i]) + ";\n"@ + post,
    decreases names.len(),
{
    let rest = outputs_text(names.drop_last(), roots.drop_last());
    let line = "    "@ + names.last()@ + " = "@ + expr_text(roots.last()) + ";\n"@;
    assert(outputs_text(names, roots) == rest + line);
    if i == names.len() - 1 {
        assert(outputs_text(names, roots) =~= rest + "    "@ + names[i]@ + " = "@ + expr_text(roots[i]) + ";\n"@
            + Seq::<char>::empty());
    } else {
        lemma_outputs_text_lines(names.drop_last(), roots.drop_last(), i);
        let (pre, post) = choose|pre: Seq<char>, post: Seq<char>|
            rest == pre + "    "@ + names.drop_last()[i]@ + " = "@ + expr_text(roots.drop_last()[i]) + ";\n"@ + post;
        assert(outputs_text(names, roots) =~= pre + "    "@ + names[i]@ + " = "@ + expr_text(roots[i]) + ";\n"@ + (post
            + line));
    }
}

/// Text that ends with the output assignments and the end of `main`
/// assigns each output on a line of its own, the last one on the last line.
proof fn lemma_text_assigns(names: Seq<String>, roots: Seq<ExprView>, head: Seq<char>, after: Seq<char>)
    requires
        names.len() == roots.len(),
        after == head + outputs_text(names, roots) + "}\n"@,
    ensures
        forall|i: int| 0 <= i < names.len() ==> assigns(after, (#[trigger] names[i])@),
        names.len() > 0 ==> ends_assigning(after, names.last()@),
{
    let body = outputs_text(names, roots);
    assert forall|i: int| 0 <= i < names.len() implies assigns(after, (#[trigger] names[i])@) by {
        lemma_outputs_text_lines(names, roots, i);
        let (pre, post) = choose|pre: Seq<char>, post: Seq<char>|
            body == pre + "    "@ + names[i]@ + " = "@ + expr_text(roots[i]) + ";\n"@ + post;
        assert(after =~= (head + pre) + "    "@ + names[i]@ + " = "@ + expr_text(roots[i]) + ";\n"@ + (post + "}\n"@));
        assert(assigns(after, names[i]@));
    }
    if names.len() > 0 {
        reveal_strlit(";\n");
        reveal_strlit("}\n");
        reveal_strlit(";\n}\n");
        let rest = outputs_text(names.drop_last(), roots.drop_last());
        assert(body == rest + "    "@ + names.last()@ + " = "@ + expr_text(roots.last()) + ";\n"@);
        assert(";\n"@ + "}\n"@ =~= ";\n}\n"@);
        assert(after =~= (head + rest) + "    "@ + names.last()@ + " = "@ + expr_text(roots.last()) + ";\n}\n"@);
        assert(ends_assigning(after, names.last()@));
    }
}

/// A shader stage assigns each of its outputs, by name, on a line of its
/// own in `main`, and the last output on the last line of `main`.
pub proof fn lemma_stage_assigns_outputs(
    graph: &ExprGraph,
    blocks: Seq<UniformBlockDef>,
    attrs: Seq<(String, String, Type)>,
    outputs: Seq<(String, usize)>,
    before: Seq<char>,
    after: Seq<char>,
)
    requires
        stage_source(graph, blocks, attrs, outputs, before, after),
    ensures
        forall|i: int| 0 <= i < outputs.len() ==> assigns(after, (#[trigger] outputs[i]).0@),
        outputs.len() > 0 ==> ends_assigning(after, outputs.last().0@),
{
    let names = output_names(outputs);
    let (head, roots) = lemma_stage_split(graph, blocks, attrs, outputs, before, after);
    lemma_text_assigns(names, roots, head, after);
    assert forall|i: int| 0 <= i < outputs.len() implies assigns(after, (#[trigger] outputs[i]).0@) by {
        assert(names[i] == outputs[i].0);
        assert(assigns(after, names[i]@));
    }
    if outputs.len() > 0 {
        assert(names.last() == outputs.last().0);
    }
}

/// A shader stage is some text followed by the output assignments, one
/// per output, and the end of `main`.
proof fn lemma_stage_split(
    graph: &ExprGraph,
    blocks: Seq<UniformBlockDef>,
    attrs: Seq<(String, String, Type)>,
    outputs: Seq<(String, usize)>,
    before: Seq<char>,
    after: Seq<char>,
) -> (r: (Seq<char>, Seq<ExprView>))
    requires
        stage_source(graph, blocks, attrs, outputs, before, after),
    ensures
        r.1.len() == outputs.len(),
        after == r.0 + outputs_text(output_names(outputs), r.1) + "}\n"@,
{
    let (reg, vf, sf) = choose|reg: StructRegistry, vf: VarForm, sf: ScopeForm|
        {
            &&& reg.built_for(graph, output_nodes(outputs), block_types(blocks))
            &&& vf.is_form_of(graph, &reg, output_nodes(outputs))
            &&& vf.numbered_in_order(graph, output_nodes(outputs))
            &&& sf.arranges(&vf)
            &&& sf.numbered_as_made(&vf)
            &&& after == before + #[trigger] stage_text(
                &reg,
                graph,
                sf.scopes_view(),
                vf.roots_view(),
                blocks,
                attrs,
                output_names(outputs),
            )
        };
    let roots = vf.roots_view();
    assert(roots.len() == output_nodes(outputs).len());
    let head = before + (struct_defs_text(&reg, graph, reg.defs_view().len() as int) + "\n"@ + blocks_text(
        &reg,
        graph,
        blocks,
    ) + "\n"@ + attrs_text(&reg, graph, attrs) + "\n"@ + "void main() {\n"@ + scope_text(
        &reg,
        graph,
        sf.scopes_view(),
        0,
        1,
    ));
    assert(after =~= head + outputs_text(output_names(outputs), roots) + "}\n"@);
    (head, roots)
}

/// Writes a shader stage that computes the nodes `outputs` of `graph`, with
/// the given uniform blocks and attributes.
pub fn write_shader_stage(
    f: &mut String,
    graph: &ExprGraph,
    uniform_block_defs: &Vec<UniformBlockDef>,
    attributes: &Vec<(String, String, Type)>,
    outputs: &Vec<(String, usize)>,
)
    requires
        graph.wf(),
        forall|i: int| 0 <= i < outputs.len() ==> #[trigger] outputs@[i].1 < graph.nodes().len(),
        forall|j: int|
            0 <= j < uniform_block_defs.len() ==> type_refs_below(
                #[trigger] uniform_block_defs@[j].ty,
                graph.structs().len() as int,
            ),
    ensures
        stage_source(graph, uniform_block_defs@, attributes@, outputs@, old(f)@, final(f)@),
{
    let ghost start = f@;
    let mut roots: Vec<usize> = Vec::new();
    let mut i: usize = 0;
    while i < outputs.len()
        invariant
            i <= outputs.len(),
            roots@ == output_nodes(outputs@.take(i as int)),
        decreases outputs.len() - i,
    {
        roots.push(outputs[i].1);
        proof {
            assert(output_nodes(outputs@.take(i + 1)) == output_nodes(outputs@.take(i as int)).push(
                outputs@[i as int].1,
            ));
        }
        i = i + 1;
    }
    assert(outputs@.take(outputs.len() as int) == outputs@);
    let mut extra: Vec<Type> = Vec::new();
    let mut j: usize = 0;
    while j < uniform_block_defs.len()
        invariant
            j <= uniform_block_defs.len(),
            extra@ == block_types(uniform_block_defs@.take(j as int)),
        decreases uniform_block_defs.len() - j,
    {
        extra.push(uniform_block_defs[j].ty.clone());
        proof {
            assert(block_types(uniform_block_defs@.take(j + 1)) == block_types(uniform_block_defs@.take(j as int)).push(
                uniform_block_defs@[j as int].ty,
            ));
        }
        j = j + 1;
    }
    assert(uniform_block_defs@.take(uniform_block_defs.len() as int) == uniform_block_defs@);
    let reg = StructRegistry::new(graph, &roots, &extra);
    proof {
        lemma_registry_covers(&reg, graph, roots@, extra@);
    }
    let var_form = VarForm::new(graph, &reg, &roots);
    let scope_form = ScopeForm::new(&var_form);
    proof {
        scope_form.lemma_nested(&var_form);
    }
    let simplified_roots = var_form.simplified_roots();
    proof {
        lemma_list_view(simplified_roots@);
        assert(roots@.len() == outputs@.len());
    }
    write_stage_body(f, &reg, graph, &var_form, &scope_form, uniform_block_defs, attributes, outputs);
    assert(reg.built_for(graph, output_nodes(outputs@), block_types(uniform_block_defs@)));
}

/// Writes a shader stage from its struct registry, variable form and scope
/// form.
#[verifier::rlimit(40)]
fn write_stage_body(
    f: &mut String,
    reg: &StructRegistry,
    graph: &ExprGraph,
    var_form: &VarForm,
    scope_form: &ScopeForm,
    uniform_block_defs: &Vec<UniformBlockDef>,
    attributes: &Vec<(String, String, Type)>,
    outputs: &Vec<(String, usize)>,
)
    requires
        reg.wf(graph),
        scope_form.nested(),
        scope_form.scopes_view().len() > 0,
        outputs.len() == var_form.roots_view().len(),
    ensures
        final(f)@ == old(f)@ + stage_text(
            reg,
            graph,
            scope_form.scopes_view(),
            var_form.roots_view(),
            uniform_block_defs@,
            attributes@,
            output_names(outputs@),
        ),
{
    let ghost start = f@;
    write_struct_defs(f, reg, graph);
    f.append("\n");
    write_uniform_blocks(f, reg, graph, uniform_block_defs);
    f.append("\n");
    write_attributes(f, reg, graph, attributes);
    f.append("\n");
    f.append("void main() {\n");
    let ghost head = f@;
    assert(head == start + (struct_defs_text(reg, graph, reg.defs_view().len() as int) + "\n"@ + blocks_text(
        reg,
        graph,
        uniform_block_defs@,
    ) + "\n"@ + attrs_text(reg, graph, attributes@) + "\n"@ + "void main() {\n"@));
    write_scope(f, reg, graph, scope_form, 0, 1);
    let simplified_roots = var_form.simplified_roots();
    proof {
        lemma_list_view(simplified_roots@);
    }
    write_outputs(f, outputs, simplified_roots);
    f.append("}\n");
}

} // verus!
