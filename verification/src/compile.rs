//! Compiling a vertex shader and a fragment shader into a program
//! definition.

use vstd::prelude::*;

use crate::dag::{type_refs_below, BuiltInType, ExprGraph, SamplerType, Type};
use crate::gen::glsl::{self, assigns, ends_assigning, lemma_stage_assigns_outputs, stage_source, write_shader_stage};
use crate::gen::names::{decimal_text, push_decimal};
use crate::gl::raw::program::{
    block_locations, block_names, lemma_distinct_no_dup, sampler_names, sampler_units, validation_result,
};
use crate::program_def::{
    ProgramDef, UniformBlockDef, UniformSamplerDef, VertexAttributeDef, VertexBlockDef, VertexInputRate,
};

verus! {

/// Collects the uniforms of a program: its samplers and its uniform
/// blocks, each numbered in the order in which it is met.
pub struct UniformVisitor {
    pub sampler_defs: Vec<UniformSamplerDef>,
    pub block_defs: Vec<UniformBlockDef>,
}

impl UniformVisitor {
    /// The samplers are on texture units 0, 1, ... in the order in which
    /// they were met, the uniform blocks at locations 0, 1, ..., and each
    /// block is named after its path.
    pub open spec fn numbered(&self) -> bool {
        &&& forall|i: int| 0 <= i < self.sampler_defs@.len() ==> #[trigger] self.sampler_defs@[i].texture_unit == i
        &&& forall|i: int|
            0 <= i < self.block_defs@.len() ==> #[trigger] self.block_defs@[i].location == i
                && self.block_defs@[i].block_name@ == self.block_defs@[i].arg_name@ + "_posh_block"@
    }

    /// No two samplers share a path, and no two uniform blocks do.
    pub open spec fn paths_distinct(&self) -> bool {
        &&& forall|i: int, j: int|
            0 <= i < j < self.sampler_defs@.len() ==> #[trigger] self.sampler_defs@[i].name@
                != #[trigger] self.sampler_defs@[j].name@
        &&& forall|i: int, j: int|
            0 <= i < j < self.block_defs@.len() ==> #[trigger] self.block_defs@[i].arg_name@
                != #[trigger] self.block_defs@[j].arg_name@
    }

    /// No uniforms yet.
    pub fn new() -> (r: Self)
        ensures
            r.sampler_defs@.len() == 0,
            r.block_defs@.len() == 0,
            r.numbered(),
    {
        UniformVisitor { sampler_defs: Vec::new(), block_defs: Vec::new() }
    }

    /// Records a sampler at `path`, on the next texture unit.
    pub fn accept_sampler2d(&mut self, path: &str, ty: SamplerType)
        ensures
            final(self).block_defs == old(self).block_defs,
            final(self).sampler_defs@.len() == old(self).sampler_defs@.len() + 1,
            final(self).sampler_defs@.drop_last() == old(self).sampler_defs@,
            final(self).sampler_defs@.last().name@ == path@,
            final(self).sampler_defs@.last().ty == ty,
            final(self).sampler_defs@.last().texture_unit == old(self).sampler_defs@.len(),
            old(self).numbered() ==> final(self).numbered(),
    {
        let texture_unit = self.sampler_defs.len();
        self.sampler_defs.push(UniformSamplerDef { name: path.to_string(), ty, texture_unit });
    }

    /// Records a uniform block at `path`, named after it, at the next
    /// location.
    pub fn accept_block(&mut self, path: &str, ty: Type)
        ensures
            final(self).sampler_defs == old(self).sampler_defs,
            final(self).block_defs@.len() == old(self).block_defs@.len() + 1,
            final(self).block_defs@.drop_last() == old(self).block_defs@,
            final(self).block_defs@.last().block_name@ == path@ + "_posh_block"@,
            final(self).block_defs@.last().arg_name@ == path@,
            final(self).block_defs@.last().ty == ty,
            final(self).block_defs@.last().location == old(self).block_defs@.len(),
            old(self).numbered() ==> final(self).numbered(),
    {
        let location = self.block_defs.len();
        let mut block_name = path.to_string();
        block_name.append("_posh_block");
        self.block_defs.push(UniformBlockDef { block_name, arg_name: path.to_string(), ty, location });
    }
}

/// Collects the vertex inputs of a program: all attributes, and the
/// vertex buffers that hold them.
pub struct VertexVisitor {
    pub attribute_defs: Vec<VertexAttributeDef>,
    pub vertex_defs: Vec<VertexBlockDef>,
}

impl VertexVisitor {
    /// No vertex inputs yet.
    pub fn new() -> (r: Self)
        ensures
            r.attribute_defs@.len() == 0,
            r.vertex_defs@.len() == 0,
    {
        VertexVisitor { attribute_defs: Vec::new(), vertex_defs: Vec::new() }
    }

    /// Records a vertex buffer at `path` with the given input rate, size of
    /// a vertex, and attributes: the attributes join those of the program.
    pub fn accept(&mut self, path: &str, input_rate: VertexInputRate, stride: usize, attributes: Vec<VertexAttributeDef>)
        ensures
            attr_defs_view(final(self).attribute_defs@) == attr_defs_view(old(self).attribute_defs@) + attr_defs_view(
                attributes@,
            ),
            final(self).vertex_defs@ == old(self).vertex_defs@.push(
                VertexBlockDef { input_rate, stride, attributes },
            ),
    {
        let mut i: usize = 0;
        let ghost start = self.attribute_defs@;
        while i < attributes.len()
            invariant
                i <= attributes.len(),
                attr_defs_view(self.attribute_defs@) == attr_defs_view(start) + attr_defs_view(attributes@.take(i as int)),
                self.vertex_defs == old(self).vertex_defs,
                start == old(self).attribute_defs@,
            decreases attributes.len() - i,
        {
            let a = &attributes[i];
            let ghost before = self.attribute_defs@;
            self.attribute_defs.push(VertexAttributeDef { name: a.name.clone(), ty: a.ty, offset: a.offset });
            assert(attr_defs_view(self.attribute_defs@) == attr_defs_view(before).push(attr_def_view(attributes@[i as int])));
            assert(attributes@.take(i + 1) == attributes@.take(i as int).push(attributes@[i as int]));
            assert(attr_defs_view(attributes@.take(i + 1)) == attr_defs_view(attributes@.take(i as int)).push(
                attr_def_view(attributes@[i as int]),
            ));
            i = i + 1;
        }
        assert(attributes@.take(i as int) == attributes@);
        self.vertex_defs.push(VertexBlockDef { input_rate, stride, attributes });
    }
}

/// A vertex attribute as its name, type and offset.
pub open spec fn attr_def_view(a: VertexAttributeDef) -> (Seq<char>, BuiltInType, usize) {
    (a.name@, a.ty, a.offset)
}

/// The views of vertex attributes.
pub open spec fn attr_defs_view(attrs: Seq<VertexAttributeDef>) -> Seq<(Seq<char>, BuiltInType, usize)> {
    attrs.map_values(|a: VertexAttributeDef| attr_def_view(a))
}

/// The outputs of a vertex shader, as nodes of the expression graph.
pub struct VertexShaderOutput {
    pub position: usize,
    pub varying: Vec<(String, usize)>,
    pub point_size: Option<usize>,
}

/// The outputs of a fragment shader, as nodes of the expression graph.
pub struct FragmentShaderOutput {
    pub fragment: Vec<(String, usize)>,
    pub fragment_depth: Option<usize>,
}

/// An attribute declaration as its qualifier, name and type.
pub type AttrView = (Seq<char>, Seq<char>, Type);

/// The views of attribute declarations.
pub open spec fn attrs_view(attrs: Seq<(String, String, Type)>) -> Seq<AttrView> {
    attrs.map_values(|a: (String, String, Type)| (a.0@, a.1@, a.2))
}

/// The views of named outputs.
pub open spec fn outputs_view(outputs: Seq<(String, usize)>) -> Seq<(Seq<char>, usize)> {
    outputs.map_values(|o: (String, usize)| (o.0@, o.1))
}

/// The vertex stage declares each attribute as an input and each varying
/// as an output.
pub open spec fn vertex_attrs(
    graph: &ExprGraph,
    attributes: Seq<VertexAttributeDef>,
    varying: Seq<(String, usize)>,
) -> Seq<AttrView> {
    attributes.map_values(|a: VertexAttributeDef| ("in"@, a.name@, Type::BuiltIn(a.ty))) + varying.map_values(
        |v: (String, usize)| ("out"@, v.0@, graph.ty_at(v.1 as int)),
    )
}

/// The vertex stage computes the position, each varying and the point
/// size, if there is one.
pub open spec fn vertex_outputs(out: VertexShaderOutput) -> Seq<(Seq<char>, usize)> {
    seq![("gl_Position"@, out.position)] + outputs_view(out.varying@) + match out.point_size {
        Some(p) => seq![("gl_PointSize"@, p)],
        None => seq![],
    }
}

/// The qualifier of the `i`-th fragment output.
pub open spec fn fragment_qualifier(i: nat) -> Seq<char> {
    "layout(location = "@ + decimal_text(i) + ") out"@
}

/// The fragment stage declares each varying as an input and each fragment
/// output at its location.
pub open spec fn fragment_attrs(
    graph: &ExprGraph,
    varying: Seq<(String, usize)>,
    fragment: Seq<(String, usize)>,
) -> Seq<AttrView> {
    varying.map_values(|v: (String, usize)| ("in"@, v.0@, graph.ty_at(v.1 as int))) + Seq::new(
        fragment.len(),
        |i: int| (fragment_qualifier(i as nat), fragment[i].0@, graph.ty_at(fragment[i].1 as int)),
    )
}

/// The fragment stage computes each fragment output and the fragment
/// depth, if there is one.
pub open spec fn fragment_outputs(out: FragmentShaderOutput) -> Seq<(Seq<char>, usize)> {
    outputs_view(out.fragment@) + match out.fragment_depth {
        Some(d) => seq![("gl_FragDepth"@, d)],
        None => seq![],
    }
}

/// The uniform blocks as the code generator declares them.
pub open spec fn glsl_blocks_view(blocks: Seq<glsl::UniformBlockDef>) -> Seq<(Seq<char>, Seq<char>, Type)> {
    blocks.map_values(|b: glsl::UniformBlockDef| (b.block_name@, b.arg_name@, b.ty))
}

/// The uniform blocks of a program as the code generator declares them.
pub open spec fn program_blocks_view(blocks: Seq<UniformBlockDef>) -> Seq<(Seq<char>, Seq<char>, Type)> {
    blocks.map_values(|b: UniformBlockDef| (b.block_name@, b.arg_name@, b.ty))
}

/// `source` is a shader stage with the given blocks, attributes and
/// outputs.
pub open spec fn stage_of(
    graph: &ExprGraph,
    blocks: Seq<(Seq<char>, Seq<char>, Type)>,
    attrs: Seq<AttrView>,
    outputs: Seq<(Seq<char>, usize)>,
    source: Seq<char>,
) -> bool {
    exists|b: Seq<glsl::UniformBlockDef>, a: Seq<(String, String, Type)>, o: Seq<(String, usize)>|
        #[trigger] glsl_blocks_view(b) == blocks && #[trigger] attrs_view(a) == attrs && #[trigger] outputs_view(o)
            == outputs && stage_source(graph, b, a, o, seq![], source)
}

/// Every node that the outputs name lies in the graph.
pub open spec fn nodes_in(graph: &ExprGraph, outputs: Seq<(String, usize)>) -> bool {
    forall|i: int| 0 <= i < outputs.len() ==> #[trigger] outputs[i].1 < graph.nodes().len()
}

fn push_attr(attrs: &mut Vec<(String, String, Type)>, qualifier: String, name: &String, ty: Type)
    ensures
        attrs_view(final(attrs)@) == attrs_view(old(attrs)@).push((qualifier@, name@, ty)),
{
    let ghost before = attrs@;
    attrs.push((qualifier, name.clone(), ty));
    assert(attrs_view(attrs@) == attrs_view(before).push((qualifier@, name@, ty)));
}

fn push_output(outputs: &mut Vec<(String, usize)>, name: String, node: usize)
    ensures
        outputs_view(final(outputs)@) == outputs_view(old(outputs)@).push((name@, node)),
        final(outputs)@ == old(outputs)@.push((name, node)),
{
    let ghost before = outputs@;
    outputs.push((name, node));
    assert(outputs_view(outputs@) == outputs_view(before).push((name@, node)));
}

/// Compiles the outputs of a vertex shader and a fragment shader, computed
/// in `graph`, into a program definition with the given uniforms and vertex
/// inputs.
#[verifier::rlimit(80)]
pub fn compile_to_program_def(
    graph: &ExprGraph,
    uniforms: UniformVisitor,
    vertex: VertexVisitor,
    vertex_output: &VertexShaderOutput,
    fragment_output: &FragmentShaderOutput,
) -> (def: ProgramDef)
    requires
        graph.wf(),
        vertex_output.position < graph.nodes().len(),
        nodes_in(graph, vertex_output.varying@),
        vertex_output.point_size matches Some(p) ==> p < graph.nodes().len(),
        nodes_in(graph, fragment_output.fragment@),
        fragment_output.fragment_depth matches Some(d) ==> d < graph.nodes().len(),
        forall|j: int|
            0 <= j < uniforms.block_defs.len() ==> type_refs_below(
                #[trigger] uniforms.block_defs@[j].ty,
                graph.structs().len() as int,
            ),
    ensures
        def.uniform_block_defs == uniforms.block_defs,
        def.uniform_sampler_defs == uniforms.sampler_defs,
        def.vertex_block_defs == vertex.vertex_defs,
        uniforms.numbered() && uniforms.paths_distinct() ==> validation_result(def)
            == Ok::<(), crate::gl::raw::error::ProgramValidationError>(()),
        stage_of(
            graph,
            program_blocks_view(uniforms.block_defs@),
            vertex_attrs(graph, vertex.attribute_defs@, vertex_output.varying@),
            vertex_outputs(*vertex_output),
            def.vertex_shader_source@,
        ),
        stage_of(
            graph,
            program_blocks_view(uniforms.block_defs@),
            fragment_attrs(graph, vertex_output.varying@, fragment_output.fragment@),
            fragment_outputs(*fragment_output),
            def.fragment_shader_source@,
        ),
{
    let mut blocks: Vec<glsl::UniformBlockDef> = Vec::new();
    let mut i: usize = 0;
    while i < uniforms.block_defs.len()
        invariant
            i <= uniforms.block_defs.len(),
            glsl_blocks_view(blocks@) == program_blocks_view(uniforms.block_defs@.take(i as int)),
            forall|k: int| 0 <= k < i ==> #[trigger] blocks@[k].ty == uniforms.block_defs@[k].ty,
            blocks.len() == i,
        decreases uniforms.block_defs.len() - i,
    {
        let d = &uniforms.block_defs[i];
        let ghost before = blocks@;
        blocks.push(
            glsl::UniformBlockDef { block_name: d.block_name.clone(), arg_name: d.arg_name.clone(), ty: d.ty.clone() },
        );
        proof {
            assert(uniforms.block_defs@.take(i + 1) == uniforms.block_defs@.take(i as int).push(*d));
            assert(glsl_blocks_view(blocks@) == glsl_blocks_view(before).push((d.block_name@, d.arg_name@, d.ty)));
        }
        i = i + 1;
    }
    assert(uniforms.block_defs@.take(i as int) == uniforms.block_defs@);
    let ghost bv = program_blocks_view(uniforms.block_defs@);
    // The vertex stage.
    let mut vertex_attrs_vec: Vec<(String, String, Type)> = Vec::new();
    let mut a: usize = 0;
    while a < vertex.attribute_defs.len()
        invariant
            a <= vertex.attribute_defs.len(),
            attrs_view(vertex_attrs_vec@) == vertex.attribute_defs@.take(a as int).map_values(
                |x: VertexAttributeDef| ("in"@, x.name@, Type::BuiltIn(x.ty)),
            ),
        decreases vertex.attribute_defs.len() - a,
    {
        let attr = &vertex.attribute_defs[a];
        push_attr(&mut vertex_attrs_vec, String::from_str("in"), &attr.name, Type::BuiltIn(attr.ty));
        proof {
            assert(vertex.attribute_defs@.take(a + 1) == vertex.attribute_defs@.take(a as int).push(*attr));
        }
        a = a + 1;
    }
    assert(vertex.attribute_defs@.take(a as int) == vertex.attribute_defs@);
    let ghost in_part = attrs_view(vertex_attrs_vec@);
    let mut v: usize = 0;
    while v < vertex_output.varying.len()
        invariant
            graph.wf(),
            nodes_in(graph, vertex_output.varying@),
            v <= vertex_output.varying.len(),
            attrs_view(vertex_attrs_vec@) == in_part + vertex_output.varying@.take(v as int).map_values(
                |x: (String, usize)| ("out"@, x.0@, graph.ty_at(x.1 as int)),
            ),
        decreases vertex_output.varying.len() - v,
    {
        let var = &vertex_output.varying[v];
        let ty = graph.ty_of(var.1);
        push_attr(&mut vertex_attrs_vec, String::from_str("out"), &var.0, ty);
        proof {
            assert(vertex_output.varying@.take(v + 1) == vertex_output.varying@.take(v as int).push(*var));
        }
        v = v + 1;
    }
    assert(vertex_output.varying@.take(v as int) == vertex_output.varying@);
    assert(attrs_view(vertex_attrs_vec@) == vertex_attrs(graph, vertex.attribute_defs@, vertex_output.varying@));
    let mut vertex_exprs: Vec<(String, usize)> = Vec::new();
    push_output(&mut vertex_exprs, String::from_str("gl_Position"), vertex_output.position);
    let mut v: usize = 0;
    while v < vertex_output.varying.len()
        invariant
            v <= vertex_output.varying.len(),
            outputs_view(vertex_exprs@) == seq![("gl_Position"@, vertex_output.position)] + outputs_view(
                vertex_output.varying@.take(v as int),
            ),
            vertex_exprs@.len() == v + 1,
            vertex_exprs@[0].1 == vertex_output.position,
            forall|k: int| 0 <= k < v ==> #[trigger] vertex_exprs@[k + 1].1 == vertex_output.varying@[k].1,
        decreases vertex_output.varying.len() - v,
    {
        let var = &vertex_output.varying[v];
        push_output(&mut vertex_exprs, var.0.clone(), var.1);
        proof {
            assert(vertex_output.varying@.take(v + 1) == vertex_output.varying@.take(v as int).push(*var));
            assert(outputs_view(vertex_output.varying@.take(v + 1)) == outputs_view(vertex_output.varying@.take(v as int)).push((var.0@, var.1)));
        }
        v = v + 1;
    }
    assert(vertex_output.varying@.take(v as int) == vertex_output.varying@);
    match vertex_output.point_size {
        Some(p) => {
            push_output(&mut vertex_exprs, String::from_str("gl_PointSize"), p);
        },
        None => {},
    }
    assert(outputs_view(vertex_exprs@) == vertex_outputs(*vertex_output));
    proof {
        assert forall|k: int| 0 <= k < vertex_exprs@.len() implies #[trigger] vertex_exprs@[k].1 < graph.nodes().len() by {
            if k >= 1 && k <= vertex_output.varying@.len() {
                assert(vertex_exprs@[(k - 1) + 1].1 == vertex_output.varying@[k - 1].1);
            }
        }
        assert forall|j: int| 0 <= j < blocks.len() implies type_refs_below(#[trigger] blocks@[j].ty, graph.structs().len() as int) by {
            assert(blocks@[j].ty == uniforms.block_defs@[j].ty);
        }
    }
    let mut vertex_shader_source = String::new();
    write_shader_stage(&mut vertex_shader_source, graph, &blocks, &vertex_attrs_vec, &vertex_exprs);
    // The fragment stage.
    let mut fragment_attrs_vec: Vec<(String, String, Type)> = Vec::new();
    let mut v: usize = 0;
    while v < vertex_output.varying.len()
        invariant
            graph.wf(),
            nodes_in(graph, vertex_output.varying@),
            v <= vertex_output.varying.len(),
            attrs_view(fragment_attrs_vec@) == vertex_output.varying@.take(v as int).map_values(
                |x: (String, usize)| ("in"@, x.0@, graph.ty_at(x.1 as int)),
            ),
        decreases vertex_output.varying.len() - v,
    {
        let var = &vertex_output.varying[v];
        let ty = graph.ty_of(var.1);
        push_attr(&mut fragment_attrs_vec, String::from_str("in"), &var.0, ty);
        proof {
            assert(vertex_output.varying@.take(v + 1) == vertex_output.varying@.take(v as int).push(*var));
        }
        v = v + 1;
    }
    assert(vertex_output.varying@.take(v as int) == vertex_output.varying@);
    let ghost varying_part = attrs_view(fragment_attrs_vec@);
    let mut f: usize = 0;
    while f < fragment_output.fragment.len()
        invariant
            graph.wf(),
            nodes_in(graph, fragment_output.fragment@),
            f <= fragment_output.fragment.len(),
            attrs_view(fragment_attrs_vec@) == varying_part + Seq::new(
                f as nat,
                |i: int|
                    (
                        fragment_qualifier(i as nat),
                        fragment_output.fragment@[i].0@,
                        graph.ty_at(fragment_output.fragment@[i].1 as int),
                    ),
            ),
        decreases fragment_output.fragment.len() - f,
    {
        let out = &fragment_output.fragment[f];
        let mut qualifier = String::from_str("layout(location = ");
        push_decimal(&mut qualifier, f);
        qualifier.append(") out");
        let ty = graph.ty_of(out.1);
        let ghost before = attrs_view(fragment_attrs_vec@);
        push_attr(&mut fragment_attrs_vec, qualifier, &out.0, ty);
        proof {
            let next = Seq::new(
                (f + 1) as nat,
                |i: int|
                    (
                        fragment_qualifier(i as nat),
                        fragment_output.fragment@[i].0@,
                        graph.ty_at(fragment_output.fragment@[i].1 as int),
                    ),
            );
            let prev = Seq::new(
                f as nat,
                |i: int|
                    (
                        fragment_qualifier(i as nat),
                        fragment_output.fragment@[i].0@,
                        graph.ty_at(fragment_output.fragment@[i].1 as int),
                    ),
            );
            assert(next == prev.push(next[f as int]));
            assert(varying_part + next == (varying_part + prev).push(next[f as int]));
        }
        f = f + 1;
    }
    assert(attrs_view(fragment_attrs_vec@) == fragment_attrs(graph, vertex_output.varying@, fragment_output.fragment@));
    let mut fragment_exprs: Vec<(String, usize)> = Vec::new();
    let mut f: usize = 0;
    while f < fragment_output.fragment.len()
        invariant
            f <= fragment_output.fragment.len(),
            outputs_view(fragment_exprs@) == outputs_view(fragment_output.fragment@.take(f as int)),
            fragment_exprs@.len() == f,
            forall|k: int| 0 <= k < f ==> #[trigger] fragment_exprs@[k].1 == fragment_output.fragment@[k].1,
        decreases fragment_output.fragment.len() - f,
    {
        let out = &fragment_output.fragment[f];
        push_output(&mut fragment_exprs, out.0.clone(), out.1);
        proof {
            assert(fragment_output.fragment@.take(f + 1) == fragment_output.fragment@.take(f as int).push(*out));
            assert(outputs_view(fragment_output.fragment@.take(f + 1)) == outputs_view(fragment_output.fragment@.take(f as int)).push((out.0@, out.1)));
        }
        f = f + 1;
    }
    assert(fragment_output.fragment@.take(f as int) == fragment_output.fragment@);
    match fragment_output.fragment_depth {
        Some(d) => {
            push_output(&mut fragment_exprs, String::from_str("gl_FragDepth"), d);
        },
        None => {},
    }
    assert(outputs_view(fragment_exprs@) == fragment_outputs(*fragment_output));
    proof {
        assert forall|k: int| 0 <= k < fragment_exprs@.len() implies #[trigger] fragment_exprs@[k].1 < graph.nodes().len() by {
            if k < fragment_output.fragment@.len() {
                assert(fragment_exprs@[k].1 == fragment_output.fragment@[k].1);
            }
        }
    }
    let mut fragment_shader_source = String::new();
    write_shader_stage(&mut fragment_shader_source, graph, &blocks, &fragment_attrs_vec, &fragment_exprs);
    proof {
        assert(Seq::<char>::empty() =~= Seq::<char>::empty());
    }
    let def = ProgramDef {
        uniform_block_defs: uniforms.block_defs,
        uniform_sampler_defs: uniforms.sampler_defs,
        vertex_block_defs: vertex.vertex_defs,
        vertex_shader_source,
        fragment_shader_source,
    };
    proof {
        if uniforms.numbered() && uniforms.paths_distinct() {
            lemma_compiled_program_validates(&uniforms, &def);
        }
    }
    def
}

/// A program compiled from uniforms that were numbered as they were met,
/// whose samplers have distinct paths and whose uniform blocks have
/// distinct paths, passes validation: its texture units and block
/// locations are distinct by construction.
pub proof fn lemma_compiled_program_validates(uniforms: &UniformVisitor, def: &ProgramDef)
    requires
        uniforms.numbered(),
        uniforms.paths_distinct(),
        def.uniform_sampler_defs == uniforms.sampler_defs,
        def.uniform_block_defs == uniforms.block_defs,
    ensures
        validation_result(*def) == Ok::<(), crate::gl::raw::error::ProgramValidationError>(()),
{
    let names = sampler_names(*def);
    let units = sampler_units(*def);
    let blocks = block_names(*def);
    let locations = block_locations(*def);
    assert forall|i: int, j: int| 0 <= i < j < names.len() implies names[i] != names[j] by {
        assert(names[i] == uniforms.sampler_defs@[i].name@);
        assert(names[j] == uniforms.sampler_defs@[j].name@);
    }
    assert forall|i: int, j: int| 0 <= i < j < units.len() implies units[i] != units[j] by {
        assert(units[i] == uniforms.sampler_defs@[i].texture_unit);
        assert(units[j] == uniforms.sampler_defs@[j].texture_unit);
    }
    assert forall|i: int, j: int| 0 <= i < j < blocks.len() implies blocks[i] != blocks[j] by {
        let a = uniforms.block_defs@[i];
        let b = uniforms.block_defs@[j];
        assert(a.location == i && b.location == j);
        assert(blocks[i] == a.block_name@ && a.block_name@ == a.arg_name@ + "_posh_block"@);
        assert(blocks[j] == b.block_name@ && b.block_name@ == b.arg_name@ + "_posh_block"@);
        if blocks[i] == blocks[j] {
            let n = blocks[i].len() - "_posh_block"@.len();
            assert(a.arg_name@ =~= blocks[i].take(n));
            assert(b.arg_name@ =~= blocks[j].take(n));
        }
    }
    assert forall|i: int, j: int| 0 <= i < j < locations.len() implies locations[i] != locations[j] by {
        assert(locations[i] == uniforms.block_defs@[i].location);
        assert(locations[j] == uniforms.block_defs@[j].location);
    }
    lemma_distinct_no_dup(names, names.len() as int);
    lemma_distinct_no_dup(units, units.len() as int);
    lemma_distinct_no_dup(blocks, blocks.len() as int);
    lemma_distinct_no_dup(locations, locations.len() as int);
}

/// The outputs of the two stages: the vertex stage computes the position
/// first, then each varying in order, then the point size if there is one;
/// the fragment stage computes each fragment output in order, then the
/// fragment depth if there is one.
pub proof fn lemma_stage_outputs(vo: VertexShaderOutput, fo: FragmentShaderOutput)
    ensures
        vertex_outputs(vo)[0] == ("gl_Position"@, vo.position),
        forall|i: int|
            0 <= i < vo.varying@.len() ==> #[trigger] vertex_outputs(vo)[i + 1] == (vo.varying@[i].0@, vo.varying@[i].1),
        vo.point_size is None ==> vertex_outputs(vo).len() == vo.varying@.len() + 1,
        vo.point_size matches Some(p) ==> vertex_outputs(vo).len() == vo.varying@.len() + 2 && vertex_outputs(vo).last()
            == ("gl_PointSize"@, p),
        forall|i: int|
            0 <= i < fo.fragment@.len() ==> #[trigger] fragment_outputs(fo)[i] == (fo.fragment@[i].0@, fo.fragment@[i].1),
        fo.fragment_depth is None ==> fragment_outputs(fo).len() == fo.fragment@.len(),
        fo.fragment_depth matches Some(d) ==> fragment_outputs(fo).len() == fo.fragment@.len() + 1
            && fragment_outputs(fo).last() == ("gl_FragDepth"@, d),
{
}

/// `source` assigns each of `outputs` by name in `main`, the last one on its
/// last line.
proof fn lemma_stage_of_assigns(
    graph: &ExprGraph,
    blocks: Seq<(Seq<char>, Seq<char>, Type)>,
    attrs: Seq<AttrView>,
    outputs: Seq<(Seq<char>, usize)>,
    source: Seq<char>,
)
    requires
        stage_of(graph, blocks, attrs, outputs, source),
    ensures
        forall|i: int| 0 <= i < outputs.len() ==> assigns(source, (#[trigger] outputs[i]).0),
        outputs.len() > 0 ==> ends_assigning(source, outputs.last().0),
{
    let (b, a, o) = choose|b: Seq<glsl::UniformBlockDef>, a: Seq<(String, String, Type)>, o: Seq<(String, usize)>|
        #[trigger] glsl_blocks_view(b) == blocks && #[trigger] attrs_view(a) == attrs && #[trigger] outputs_view(o)
            == outputs && stage_source(graph, b, a, o, seq![], source);
    lemma_stage_assigns_outputs(graph, b, a, o, seq![], source);
    assert forall|i: int| 0 <= i < outputs.len() implies assigns(source, (#[trigger] outputs[i]).0) by {
        assert(outputs[i].0 == o[i].0@);
        assert(assigns(source, o[i].0@));
    }
    if outputs.len() > 0 {
        assert(outputs.last().0 == o.last().0@);
    }
}

/// The compiled stages assign what they compute: the vertex source assigns
/// `gl_Position` and each varying by name, and, when a point size is given,
/// ends by assigning `gl_PointSize`; the fragment source assigns each
/// fragment output by name and, when a fragment depth is given, ends by
/// assigning `gl_FragDepth`.
pub proof fn lemma_compiled_stages_assign(
    graph: &ExprGraph,
    blocks: Seq<(Seq<char>, Seq<char>, Type)>,
    attribute_defs: Seq<VertexAttributeDef>,
    vo: VertexShaderOutput,
    fo: FragmentShaderOutput,
    vertex_source: Seq<char>,
    fragment_source: Seq<char>,
)
    requires
        stage_of(graph, blocks, vertex_attrs(graph, attribute_defs, vo.varying@), vertex_outputs(vo), vertex_source),
        stage_of(graph, blocks, fragment_attrs(graph, vo.varying@, fo.fragment@), fragment_outputs(fo), fragment_source),
    ensures
        assigns(vertex_source, "gl_Position"@),
        forall|i: int| 0 <= i < vo.varying@.len() ==> assigns(vertex_source, (#[trigger] vo.varying@[i]).0@),
        vo.point_size is Some ==> ends_assigning(vertex_source, "gl_PointSize"@),
        forall|i: int| 0 <= i < fo.fragment@.len() ==> assigns(fragment_source, (#[trigger] fo.fragment@[i]).0@),
        fo.fragment_depth is Some ==> ends_assigning(fragment_source, "gl_FragDepth"@),
{
    lemma_stage_outputs(vo, fo);
    let vouts = vertex_outputs(vo);
    let fouts = fragment_outputs(fo);
    lemma_stage_of_assigns(graph, blocks, vertex_attrs(graph, attribute_defs, vo.varying@), vouts, vertex_source);
    lemma_stage_of_assigns(graph, blocks, fragment_attrs(graph, vo.varying@, fo.fragment@), fouts, fragment_source);
    assert(vouts[0].0 == "gl_Position"@);
    assert forall|i: int| 0 <= i < vo.varying@.len() implies assigns(vertex_source, (#[trigger] vo.varying@[i]).0@) by {
        assert(vouts[i + 1].0 == vo.varying@[i].0@);
    }
    assert forall|i: int| 0 <= i < fo.fragment@.len() implies assigns(fragment_source, (#[trigger] fo.fragment@[i]).0@) by {
        assert(fouts[i].0 == fo.fragment@[i].0@);
    }
}

} // verus!
