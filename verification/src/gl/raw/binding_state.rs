//! A model of what OpenGL has bound, and the laws that the commands of each
//! binding operation keep it in step with what `Bindings` records.

use vstd::prelude::*;

use super::context::{
    attachment_ids, buffer_unbind_cmds, cleared, color_attach_cmds, color_attach_outcome, color_bound,
    color_unbind_cmds, depth_after, depth_attach_cmds, depth_location_of, depth_unbind_cmds, detach_cmds, fbo_cmd,
    padded, slot_step, unit_unbind_cmds, BindCommand, Bindings, Caps, DepthLocation,
};
use super::framebuffer::Attachment;

verus! {

/// What OpenGL has bound: the program in use, whether the framebuffer
/// object is bound for drawing, the texture at each color attachment point
/// and at the depth and the depth-stencil points of the framebuffer object,
/// the texture on each texture unit and the buffer at each uniform binding
/// point.
pub struct GlBindings {
    pub program: Option<u32>,
    pub draw_fbo: bool,
    pub color: spec_fn(int) -> Option<u32>,
    pub depth: Option<u32>,
    pub depth_stencil: Option<u32>,
    pub textures: spec_fn(int) -> Option<u32>,
    pub uniform_buffers: spec_fn(int) -> Option<u32>,
}

/// `f` with `v` at `i`.
pub open spec fn set_at(f: spec_fn(int) -> Option<u32>, i: int, v: Option<u32>) -> spec_fn(int) -> Option<u32> {
    |j: int| if j == i { v } else { f(j) }
}

/// The bindings after the command `c`. Attaching changes the framebuffer
/// object only while it is bound.
pub open spec fn apply_bind(g: GlBindings, c: BindCommand) -> GlBindings {
    match c {
        BindCommand::UseProgram(p) => GlBindings { program: p, ..g },
        BindCommand::BindDrawFramebuffer(yes) => GlBindings { draw_fbo: yes, ..g },
        BindCommand::AttachColor { index, texture, .. } => if g.draw_fbo {
            GlBindings { color: set_at(g.color, index as int, texture), ..g }
        } else {
            g
        },
        BindCommand::AttachDepth { location, texture, .. } => if g.draw_fbo {
            match location {
                DepthLocation::Depth => GlBindings { depth: texture, ..g },
                DepthLocation::DepthStencil => GlBindings { depth_stencil: texture, ..g },
            }
        } else {
            g
        },
        BindCommand::DrawBuffers(_) => g,
        BindCommand::BindTexture2d { unit, texture } => GlBindings {
            textures: set_at(g.textures, unit as int, texture),
            ..g
        },
        BindCommand::BindUniformBuffer { location, buffer } => GlBindings {
            uniform_buffers: set_at(g.uniform_buffers, location as int, buffer),
            ..g
        },
    }
}

/// The bindings after the commands `cs`, in order.
pub open spec fn run_binds(g: GlBindings, cs: Seq<BindCommand>) -> GlBindings
    decreases cs.len(),
{
    if cs.len() == 0 {
        g
    } else {
        apply_bind(run_binds(g, cs.drop_last()), cs.last())
    }
}

/// What `Bindings` records, as plain values.
pub struct BindingsView {
    pub program: Option<u32>,
    pub draw_fbo: bool,
    pub color: Seq<u32>,
    pub depth: Option<(DepthLocation, u32)>,
    pub textures: Seq<Option<u32>>,
    pub uniform_buffers: Seq<Option<u32>>,
}

impl View for Bindings {
    type V = BindingsView;

    open spec fn view(&self) -> BindingsView {
        BindingsView {
            program: self.bound_program_id,
            draw_fbo: self.is_draw_fbo_bound,
            color: self.bound_color_attachment_ids@,
            depth: self.bound_depth_attachment_id,
            textures: self.bound_texture_2d_ids@,
            uniform_buffers: self.bound_uniform_buffer_ids@,
        }
    }
}

/// Slot `i` holds what the recorded slots hold, and nothing beyond them.
pub open spec fn slots_match(f: spec_fn(int) -> Option<u32>, s: Seq<Option<u32>>) -> bool {
    forall|i: int| 0 <= i ==> #[trigger] f(i) == if i < s.len() { s[i] } else { None }
}

/// The color attachment points hold the recorded textures, and nothing
/// beyond them.
pub open spec fn color_match(f: spec_fn(int) -> Option<u32>, ids: Seq<u32>) -> bool {
    forall|i: int| 0 <= i ==> #[trigger] f(i) == if i < ids.len() { Some(ids[i]) } else { None }
}

/// The depth points hold the recorded depth attachment.
pub open spec fn depth_match(g: GlBindings, d: Option<(DepthLocation, u32)>) -> bool {
    match d {
        Some((DepthLocation::Depth, id)) => g.depth == Some(id) && g.depth_stencil is None,
        Some((DepthLocation::DepthStencil, id)) => g.depth_stencil == Some(id) && g.depth is None,
        None => g.depth is None && g.depth_stencil is None,
    }
}

/// OpenGL has bound what is recorded.
pub open spec fn mirrors(g: GlBindings, b: BindingsView) -> bool {
    &&& g.program == b.program
    &&& g.draw_fbo == b.draw_fbo
    &&& color_match(g.color, b.color)
    &&& depth_match(g, b.depth)
    &&& slots_match(g.textures, b.textures)
    &&& slots_match(g.uniform_buffers, b.uniform_buffers)
}

proof fn lemma_run_push(g: GlBindings, cs: Seq<BindCommand>, c: BindCommand)
    ensures
        run_binds(g, cs.push(c)) == apply_bind(run_binds(g, cs), c),
{
    assert(cs.push(c).drop_last() =~= cs);
    assert(cs.push(c).last() == c);
}

proof fn lemma_run_append(g: GlBindings, a: Seq<BindCommand>, b: Seq<BindCommand>)
    ensures
        run_binds(g, a + b) == run_binds(run_binds(g, a), b),
    decreases b.len(),
{
    if b.len() == 0 {
        assert(a + b =~= a);
    } else {
        assert((a + b).drop_last() =~= a + b.drop_last());
        assert((a + b).last() == b.last());
        lemma_run_append(g, a, b.drop_last());
    }
}

proof fn lemma_run_one(g: GlBindings, c: BindCommand)
    ensures
        run_binds(g, Seq::<BindCommand>::empty()) == g,
        run_binds(g, seq![c]) == apply_bind(g, c),
{
    lemma_run_push(g, Seq::<BindCommand>::empty(), c);
    assert(Seq::<BindCommand>::empty().push(c) =~= seq![c]);
}

/// Using a program, unless it is in use, keeps OpenGL in step with what is
/// recorded.
pub proof fn lemma_bind_program_mirrored(g: GlBindings, b: BindingsView, id: Option<u32>)
    requires
        mirrors(g, b),
    ensures
        mirrors(
            run_binds(g, if b.program == id { seq![] } else { seq![BindCommand::UseProgram(id)] }),
            BindingsView { program: id, ..b },
        ),
{
    lemma_run_one(g, BindCommand::UseProgram(id));
}

/// Binding the framebuffer object or the default framebuffer, unless it is
/// bound, keeps OpenGL in step with what is recorded.
pub proof fn lemma_bind_draw_fbo_mirrored(g: GlBindings, b: BindingsView, yes: bool)
    requires
        mirrors(g, b),
    ensures
        mirrors(
            run_binds(g, if b.draw_fbo == yes { seq![] } else { seq![BindCommand::BindDrawFramebuffer(yes)] }),
            BindingsView { draw_fbo: yes, ..b },
        ),
{
    lemma_run_one(g, BindCommand::BindDrawFramebuffer(yes));
}

proof fn lemma_slot_step_matches(f: spec_fn(int) -> Option<u32>, s: Seq<Option<u32>>, slot: nat, id: Option<u32>)
    requires
        slots_match(f, s),
    ensures
        slots_match(if slot_step(s, slot, id).1 { set_at(f, slot as int, id) } else { f }, slot_step(s, slot, id).0),
{
    let p = padded(s, slot + 1);
    assert forall|i: int| 0 <= i implies #[trigger] f(i) == if i < p.len() { p[i] } else { None } by {
        assert(f(i) == if i < s.len() { s[i] } else { None });
    }
    let g = if slot_step(s, slot, id).1 { set_at(f, slot as int, id) } else { f };
    let t = slot_step(s, slot, id).0;
    assert forall|i: int| 0 <= i implies #[trigger] g(i) == if i < t.len() { t[i] } else { None } by {
        assert(f(i) == if i < p.len() { p[i] } else { None });
    }
}

/// Binding a texture to a texture unit, unless it is bound there, keeps
/// OpenGL in step with what is recorded.
pub proof fn lemma_bind_texture_mirrored(g: GlBindings, b: BindingsView, unit: usize, id: Option<u32>)
    requires
        mirrors(g, b),
    ensures
        mirrors(
            run_binds(
                g,
                if slot_step(b.textures, unit as nat, id).1 {
                    seq![BindCommand::BindTexture2d { unit, texture: id }]
                } else {
                    seq![]
                },
            ),
            BindingsView { textures: slot_step(b.textures, unit as nat, id).0, ..b },
        ),
{
    lemma_run_one(g, BindCommand::BindTexture2d { unit, texture: id });
    lemma_slot_step_matches(g.textures, b.textures, unit as nat, id);
}

/// Binding a buffer to a uniform binding point, unless it is bound there,
/// keeps OpenGL in step with what is recorded.
pub proof fn lemma_bind_uniform_buffer_mirrored(g: GlBindings, b: BindingsView, location: u32, id: Option<u32>)
    requires
        mirrors(g, b),
    ensures
        mirrors(
            run_binds(
                g,
                if slot_step(b.uniform_buffers, location as nat, id).1 {
                    seq![BindCommand::BindUniformBuffer { location, buffer: id }]
                } else {
                    seq![]
                },
            ),
            BindingsView { uniform_buffers: slot_step(b.uniform_buffers, location as nat, id).0, ..b },
        ),
{
    lemma_run_one(g, BindCommand::BindUniformBuffer { location, buffer: id });
    lemma_slot_step_matches(g.uniform_buffers, b.uniform_buffers, location as nat, id);
}

proof fn lemma_run_buffer_unbind(g: GlBindings, points: Seq<Option<u32>>, id: u32, k: int)
    requires
        0 <= k <= points.len(),
        k <= u32::MAX + 1,
    ensures
        ({
            let t = run_binds(g, buffer_unbind_cmds(points, id, k));
            &&& t.program == g.program
            &&& t.draw_fbo == g.draw_fbo
            &&& t.color == g.color
            &&& t.depth == g.depth
            &&& t.depth_stencil == g.depth_stencil
            &&& t.textures == g.textures
            &&& forall|i: int|
                #![trigger (t.uniform_buffers)(i)]
                (t.uniform_buffers)(i) == if 0 <= i < k && points[i] == Some(id) {
                    None
                } else {
                    (g.uniform_buffers)(i)
                }
        }),
    decreases k,
{
    lemma_run_one(g, BindCommand::UseProgram(None));
    if k > 0 {
        lemma_run_buffer_unbind(g, points, id, k - 1);
        let prev = buffer_unbind_cmds(points, id, k - 1);
        let c = BindCommand::BindUniformBuffer { location: (k - 1) as u32, buffer: None };
        lemma_run_append(g, prev, seq![c]);
        lemma_run_one(run_binds(g, prev), c);
        if points[k - 1] == Some(id) {
            assert(buffer_unbind_cmds(points, id, k) == prev + seq![c]);
        } else {
            assert(buffer_unbind_cmds(points, id, k) =~= prev);
        }
    }
}

/// Unbinding a buffer from every uniform binding point that holds it keeps
/// OpenGL in step with what is recorded.
pub proof fn lemma_unbind_buffer_mirrored(g: GlBindings, b: BindingsView, id: u32)
    requires
        mirrors(g, b),
        b.uniform_buffers.len() <= u32::MAX + 1,
    ensures
        mirrors(
            run_binds(g, buffer_unbind_cmds(b.uniform_buffers, id, b.uniform_buffers.len() as int)),
            BindingsView { uniform_buffers: cleared(b.uniform_buffers, id), ..b },
        ),
{
    let n = b.uniform_buffers.len() as int;
    lemma_run_buffer_unbind(g, b.uniform_buffers, id, n);
    let t = run_binds(g, buffer_unbind_cmds(b.uniform_buffers, id, n));
    let c = cleared(b.uniform_buffers, id);
    assert forall|i: int| 0 <= i implies #[trigger] (t.uniform_buffers)(i) == if i < c.len() { c[i] } else { None } by {
        assert((g.uniform_buffers)(i) == if i < n { b.uniform_buffers[i] } else { None });
    }
}

/// Attaching a depth attachment, unless it is attached already, keeps
/// OpenGL in step with what is recorded, while the framebuffer object is
/// bound.
pub proof fn lemma_bind_depth_mirrored(g: GlBindings, b: BindingsView, attachment: Option<Attachment>)
    requires
        mirrors(g, b),
        b.draw_fbo,
    ensures
        mirrors(
            run_binds(g, depth_attach_cmds(b.depth, attachment)),
            BindingsView { depth: depth_after(b.depth, attachment), ..b },
        ),
{
    let location = match attachment {
        Some(a) => Some(depth_location_of(a)),
        None => None,
    };
    let detach: Seq<BindCommand> = match b.depth {
        Some((l, _)) => if Some(l) != location {
            seq![BindCommand::AttachDepth { location: l, texture: None, level: 0 }]
        } else {
            seq![]
        },
        None => seq![],
    };
    let attach: Seq<BindCommand> = match attachment {
        Some(a) => seq![
            BindCommand::AttachDepth {
                location: depth_location_of(a),
                texture: Some(a.texture().id),
                level: a.level() as i32,
            },
        ],
        None => seq![],
    };
    lemma_run_one(g, BindCommand::UseProgram(None));
    let new_id = match attachment {
        Some(a) => Some(a.texture().id),
        None => None,
    };
    let bound_id = match b.depth {
        Some((_, x)) => Some(x),
        None => None,
    };
    if new_id != bound_id {
        assert(depth_attach_cmds(b.depth, attachment) == detach + attach);
        lemma_run_append(g, detach, attach);
        let g1 = run_binds(g, detach);
        if let Some((l, _)) = b.depth {
            lemma_run_one(g, BindCommand::AttachDepth { location: l, texture: None, level: 0 });
        }
        lemma_run_one(g1, BindCommand::UseProgram(None));
        if let Some(a) = attachment {
            lemma_run_one(
                g1,
                BindCommand::AttachDepth {
                    location: depth_location_of(a),
                    texture: Some(a.texture().id),
                    level: a.level() as i32,
                },
            );
        }
    }
}

proof fn lemma_run_color_attach(g: GlBindings, bound: Seq<u32>, atts: Seq<Attachment>, k: int)
    requires
        g.draw_fbo,
        0 <= k <= atts.len(),
        atts.len() <= usize::MAX,
    ensures
        ({
            let t = run_binds(g, color_attach_cmds(bound, atts, k));
            &&& t.program == g.program
            &&& t.draw_fbo == g.draw_fbo
            &&& t.depth == g.depth
            &&& t.depth_stencil == g.depth_stencil
            &&& t.textures == g.textures
            &&& t.uniform_buffers == g.uniform_buffers
            &&& forall|i: int|
                #![trigger (t.color)(i)]
                (t.color)(i) == if 0 <= i < k && !color_bound(bound, atts, i) {
                    Some(atts[i].texture().id)
                } else {
                    (g.color)(i)
                }
        }),
    decreases k,
{
    lemma_run_one(g, BindCommand::UseProgram(None));
    if k > 0 {
        lemma_run_color_attach(g, bound, atts, k - 1);
        let prev = color_attach_cmds(bound, atts, k - 1);
        let c = BindCommand::AttachColor {
            index: (k - 1) as usize,
            texture: Some(atts[k - 1].texture().id),
            level: atts[k - 1].level() as i32,
        };
        lemma_run_append(g, prev, seq![c]);
        lemma_run_one(run_binds(g, prev), c);
        if color_bound(bound, atts, k - 1) {
            assert(color_attach_cmds(bound, atts, k) =~= prev);
        } else {
            assert(color_attach_cmds(bound, atts, k) == prev + seq![c]);
        }
    }
}

proof fn lemma_run_detach(g: GlBindings, from: int, to: int)
    requires
        g.draw_fbo,
        0 <= from,
        to <= usize::MAX + 1,
    ensures
        ({
            let t = run_binds(g, detach_cmds(from, to));
            &&& t.program == g.program
            &&& t.draw_fbo == g.draw_fbo
            &&& t.depth == g.depth
            &&& t.depth_stencil == g.depth_stencil
            &&& t.textures == g.textures
            &&& t.uniform_buffers == g.uniform_buffers
            &&& forall|i: int|
                #![trigger (t.color)(i)]
                (t.color)(i) == if from <= i < to {
                    None
                } else {
                    (g.color)(i)
                }
        }),
    decreases to - from,
{
    lemma_run_one(g, BindCommand::UseProgram(None));
    if from < to {
        let c = BindCommand::AttachColor { index: from as usize, texture: None, level: 0 };
        lemma_run_one(g, c);
        let g1 = apply_bind(g, c);
        lemma_run_detach(g1, from + 1, to);
        lemma_run_append(g, seq![c], detach_cmds(from + 1, to));
    }
}

/// Attaching color attachments keeps OpenGL in step with what is recorded,
/// while the framebuffer object is bound, when it succeeds. When it fails
/// at a level that is too large, the attachments before it are attached
/// while the record keeps the old ones.
pub proof fn lemma_bind_color_mirrored(g: GlBindings, b: BindingsView, caps: Caps, atts: Seq<Attachment>)
    requires
        mirrors(g, b),
        b.draw_fbo,
        atts.len() <= u32::MAX,
        b.color.len() <= usize::MAX,
        color_attach_outcome(caps, b.color, atts).1 is None,
    ensures
        mirrors(
            run_binds(g, color_attach_outcome(caps, b.color, atts).0),
            BindingsView { color: attachment_ids(atts), ..b },
        ),
{
    let n = atts.len() as int;
    let bound = b.color;
    let a = color_attach_cmds(bound, atts, n);
    let d = detach_cmds(n, bound.len() as int);
    let w: Seq<BindCommand> = if bound.len() != n {
        seq![BindCommand::DrawBuffers(n as usize)]
    } else {
        seq![]
    };
    assert(color_attach_outcome(caps, bound, atts).0 == a + d + w);
    lemma_run_append(g, a + d, w);
    lemma_run_append(g, a, d);
    lemma_run_color_attach(g, bound, atts, n);
    let g1 = run_binds(g, a);
    lemma_run_detach(g1, n, bound.len() as int);
    let g2 = run_binds(g1, d);
    lemma_run_one(g2, BindCommand::DrawBuffers(n as usize));
    let t = run_binds(g, a + d + w);
    let ids = attachment_ids(atts);
    assert forall|i: int| 0 <= i implies #[trigger] (t.color)(i) == if i < ids.len() { Some(ids[i]) } else { None } by {
        assert((g.color)(i) == if i < bound.len() { Some(bound[i]) } else { None });
        assert((g2.color)(i) == (t.color)(i));
    }
}

/// Binding a framebuffer object with attachments keeps OpenGL in step with
/// what is recorded when attaching the color attachments succeeds: the
/// framebuffer object is bound first, then the color attachments and the
/// depth attachment are attached.
pub proof fn lemma_bind_framebuffer_mirrored(
    g: GlBindings,
    b: BindingsView,
    caps: Caps,
    atts: Seq<Attachment>,
    depth: Option<Attachment>,
)
    requires
        mirrors(g, b),
        atts.len() <= u32::MAX,
        b.color.len() <= usize::MAX,
        color_attach_outcome(caps, b.color, atts).1 is None,
    ensures
        mirrors(
            run_binds(
                g,
                fbo_cmd(b.draw_fbo) + color_attach_outcome(caps, b.color, atts).0 + depth_attach_cmds(b.depth, depth),
            ),
            BindingsView { draw_fbo: true, color: attachment_ids(atts), depth: depth_after(b.depth, depth), ..b },
        ),
{
    let f = fbo_cmd(b.draw_fbo);
    let c = color_attach_outcome(caps, b.color, atts).0;
    let d = depth_attach_cmds(b.depth, depth);
    lemma_run_append(g, f + c, d);
    lemma_run_append(g, f, c);
    lemma_bind_draw_fbo_mirrored(g, b, true);
    let b1 = BindingsView { draw_fbo: true, ..b };
    let g1 = run_binds(g, f);
    lemma_bind_color_mirrored(g1, b1, caps, atts);
    let b2 = BindingsView { color: attachment_ids(atts), ..b1 };
    let g2 = run_binds(g1, c);
    lemma_bind_depth_mirrored(g2, b2, depth);
}

proof fn lemma_run_unit_unbind(g: GlBindings, units: Seq<Option<u32>>, id: u32, k: int)
    requires
        0 <= k <= units.len(),
        k <= usize::MAX + 1,
    ensures
        ({
            let t = run_binds(g, unit_unbind_cmds(units, id, k));
            &&& t.program == g.program
            &&& t.draw_fbo == g.draw_fbo
            &&& t.color == g.color
            &&& t.depth == g.depth
            &&& t.depth_stencil == g.depth_stencil
            &&& t.uniform_buffers == g.uniform_buffers
            &&& forall|i: int|
                #![trigger (t.textures)(i)]
                (t.textures)(i) == if 0 <= i < k && units[i] == Some(id) {
                    None
                } else {
                    (g.textures)(i)
                }
        }),
    decreases k,
{
    lemma_run_one(g, BindCommand::UseProgram(None));
    if k > 0 {
        lemma_run_unit_unbind(g, units, id, k - 1);
        let prev = unit_unbind_cmds(units, id, k - 1);
        let c = BindCommand::BindTexture2d { unit: (k - 1) as usize, texture: None };
        lemma_run_append(g, prev, seq![c]);
        lemma_run_one(run_binds(g, prev), c);
        if units[k - 1] == Some(id) {
            assert(unit_unbind_cmds(units, id, k) == prev + seq![c]);
        } else {
            assert(unit_unbind_cmds(units, id, k) =~= prev);
        }
    }
}

/// Detaching and unbinding a texture wherever it is bound keeps OpenGL in
/// step with what is recorded.
pub proof fn lemma_unbind_texture_mirrored(g: GlBindings, b: BindingsView, id: u32)
    requires
        mirrors(g, b),
        b.color.len() <= usize::MAX,
        b.textures.len() <= usize::MAX,
    ensures
        ({
            let depth_hit = b.depth matches Some((_, x)) && x == id;
            let color_hit = b.color.contains(id);
            let fbo1 = depth_hit || b.draw_fbo;
            mirrors(
                run_binds(
                    g,
                    depth_unbind_cmds(b.depth, b.draw_fbo, id) + color_unbind_cmds(b.color, id, fbo1) + unit_unbind_cmds(
                        b.textures,
                        id,
                        b.textures.len() as int,
                    ),
                ),
                BindingsView {
                    draw_fbo: fbo1 || color_hit,
                    depth: if depth_hit { None } else { b.depth },
                    color: if color_hit { Seq::<u32>::empty() } else { b.color },
                    textures: cleared(b.textures, id),
                    ..b
                },
            )
        }),
{
    let depth_hit = b.depth matches Some((_, x)) && x == id;
    let color_hit = b.color.contains(id);
    let fbo1 = depth_hit || b.draw_fbo;
    let dc = depth_unbind_cmds(b.depth, b.draw_fbo, id);
    let cc = color_unbind_cmds(b.color, id, fbo1);
    let uc = unit_unbind_cmds(b.textures, id, b.textures.len() as int);
    lemma_run_append(g, dc + cc, uc);
    lemma_run_append(g, dc, cc);
    lemma_run_one(g, BindCommand::UseProgram(None));
    // The depth attachment.
    let b1 = BindingsView { draw_fbo: fbo1, depth: if depth_hit { None } else { b.depth }, ..b };
    let g1 = run_binds(g, dc);
    if depth_hit {
        let l = match b.depth {
            Some((l, _)) => l,
            None => DepthLocation::Depth,
        };
        let detach = BindCommand::AttachDepth { location: l, texture: None, level: 0 };
        lemma_bind_draw_fbo_mirrored(g, b, true);
        let g0 = run_binds(g, fbo_cmd(b.draw_fbo));
        lemma_run_append(g, fbo_cmd(b.draw_fbo), seq![detach]);
        lemma_run_one(g0, detach);
    }
    assert(mirrors(g1, b1));
    // The color attachments.
    let b2 = BindingsView {
        draw_fbo: fbo1 || color_hit,
        color: if color_hit { Seq::<u32>::empty() } else { b.color },
        ..b1
    };
    let g2 = run_binds(g1, cc);
    lemma_run_one(g1, BindCommand::UseProgram(None));
    if color_hit {
        let f = fbo_cmd(fbo1);
        let d = detach_cmds(0, b.color.len() as int);
        let w: Seq<BindCommand> = if b.color.len() != 0 {
            seq![BindCommand::DrawBuffers(0)]
        } else {
            seq![]
        };
        lemma_run_append(g1, f + d, w);
        lemma_run_append(g1, f, d);
        lemma_bind_draw_fbo_mirrored(g1, b1, true);
        let h1 = run_binds(g1, f);
        lemma_run_detach(h1, 0, b.color.len() as int);
        let h2 = run_binds(h1, d);
        lemma_run_one(h2, BindCommand::DrawBuffers(0));
        assert forall|i: int| 0 <= i implies #[trigger] (g2.color)(i) == None::<u32> by {
            assert((g1.color)(i) == if i < b.color.len() { Some(b.color[i]) } else { None });
            assert((h1.color)(i) == (g1.color)(i));
            assert((h2.color)(i) == (g2.color)(i));
        }
    }
    assert(mirrors(g2, b2));
    // The texture units.
    lemma_run_unit_unbind(g2, b.textures, id, b.textures.len() as int);
    let t = run_binds(g2, uc);
    let c = cleared(b.textures, id);
    assert forall|i: int| 0 <= i implies #[trigger] (t.textures)(i) == if i < c.len() { c[i] } else { None } by {
        assert((g2.textures)(i) == if i < b.textures.len() { b.textures[i] } else { None });
    }
}

/// A context in which nothing is bound: no program, the default
/// framebuffer, nothing attached to the framebuffer object, and no texture
/// or buffer on any unit or binding point.
pub open spec fn nothing_bound() -> GlBindings {
    GlBindings {
        program: None,
        draw_fbo: false,
        color: |i: int| None,
        depth: None,
        depth_stencil: None,
        textures: |i: int| None,
        uniform_buffers: |i: int| None,
    }
}

/// A new record, in which nothing is bound, is in step with a context in
/// which nothing is bound.
pub proof fn lemma_new_mirrored(b: BindingsView)
    requires
        b.program is None,
        !b.draw_fbo,
        b.color == Seq::<u32>::empty(),
        b.depth is None,
        b.textures == Seq::<Option<u32>>::empty(),
        b.uniform_buffers == Seq::<Option<u32>>::empty(),
    ensures
        mirrors(nothing_bound(), b),
{
}

} // verus!
