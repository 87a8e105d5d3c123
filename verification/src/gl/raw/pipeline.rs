//! A model of the pipeline state that draw settings change, and the law
//! that applying the changes of `DrawParams::set_delta` takes the pipeline
//! from the current settings to the new ones.

use vstd::prelude::*;

use super::params::{
    blend_changes, cull_changes, default_stencil_ops, default_stencil_test, delta_changes, depth_changes,
    effective_viewport, mask_changes, scissor_changes, scissor_of, stencil_ops_changes, stencil_test_changes,
    viewport_of, BlendEquation, BlendFunc, Capability, Comparison, CullFace, DrawParams, Face, Rect, StateChange,
    StencilOps, StencilTest,
};

verus! {

/// The part of the OpenGL state that the draw settings change.
pub struct PipelineState {
    pub scissor_test: bool,
    pub scissor: (i32, i32, i32, i32),
    pub viewport: (i32, i32, i32, i32),
    pub cull_test: bool,
    pub cull_face: CullFace,
    pub stencil_test: bool,
    pub stencil_func_front: (Comparison, i32, u32),
    pub stencil_func_back: (Comparison, i32, u32),
    pub stencil_ops_front: StencilOps,
    pub stencil_ops_back: StencilOps,
    pub depth_test: bool,
    pub depth_func: Comparison,
    pub blend: bool,
    pub blend_equation: (BlendEquation, BlendEquation),
    pub blend_func: (BlendFunc, BlendFunc, BlendFunc, BlendFunc),
    pub blend_color: [u32; 4],
    pub stencil_mask_front: u32,
    pub stencil_mask_back: u32,
    pub depth_mask: bool,
    pub color_mask: [bool; 4],
}

/// The state after switching capability `c` on or off.
pub open spec fn set_capability(s: PipelineState, c: Capability, on: bool) -> PipelineState {
    match c {
        Capability::ScissorTest => PipelineState { scissor_test: on, ..s },
        Capability::CullFace => PipelineState { cull_test: on, ..s },
        Capability::StencilTest => PipelineState { stencil_test: on, ..s },
        Capability::DepthTest => PipelineState { depth_test: on, ..s },
        Capability::Blend => PipelineState { blend: on, ..s },
    }
}

/// The state after the change `c`.
pub open spec fn apply(s: PipelineState, c: StateChange) -> PipelineState {
    match c {
        StateChange::Enable(cap) => set_capability(s, cap, true),
        StateChange::Disable(cap) => set_capability(s, cap, false),
        StateChange::Scissor { x, y, width, height } => PipelineState { scissor: (x, y, width, height), ..s },
        StateChange::Viewport { x, y, width, height } => PipelineState { viewport: (x, y, width, height), ..s },
        StateChange::CullFace(f) => PipelineState { cull_face: f, ..s },
        StateChange::StencilFunc { face, comparison, reference, mask } => match face {
            Face::Front => PipelineState { stencil_func_front: (comparison, reference, mask), ..s },
            Face::Back => PipelineState { stencil_func_back: (comparison, reference, mask), ..s },
        },
        StateChange::StencilOp { face, ops } => match face {
            Face::Front => PipelineState { stencil_ops_front: ops, ..s },
            Face::Back => PipelineState { stencil_ops_back: ops, ..s },
        },
        StateChange::DepthFunc(f) => PipelineState { depth_func: f, ..s },
        StateChange::BlendEquation { color, alpha } => PipelineState { blend_equation: (color, alpha), ..s },
        StateChange::BlendFunc { src_color, dst_color, src_alpha, dst_alpha } => PipelineState {
            blend_func: (src_color, dst_color, src_alpha, dst_alpha),
            ..s
        },
        StateChange::BlendColor(c) => PipelineState { blend_color: c, ..s },
        StateChange::StencilMask { face, mask } => match face {
            Face::Front => PipelineState { stencil_mask_front: mask, ..s },
            Face::Back => PipelineState { stencil_mask_back: mask, ..s },
        },
        StateChange::DepthMask(m) => PipelineState { depth_mask: m, ..s },
        StateChange::ColorMask(m) => PipelineState { color_mask: m, ..s },
    }
}

/// The state after the changes `cs`, in order.
pub open spec fn apply_all(s: PipelineState, cs: Seq<StateChange>) -> PipelineState
    decreases cs.len(),
{
    if cs.len() == 0 {
        s
    } else {
        apply(apply_all(s, cs.drop_last()), cs.last())
    }
}

/// A rectangle as the calls take it.
pub open spec fn rect_args(r: Rect) -> (i32, i32, i32, i32) {
    (r.lower_left_corner[0] as i32, r.lower_left_corner[1] as i32, r.size[0] as i32, r.size[1] as i32)
}

/// A stencil test as the calls take it, the test that always passes where
/// there is none.
pub open spec fn stencil_args(t: Option<StencilTest>) -> (Comparison, i32, u32) {
    let t = match t {
        Some(t) => t,
        None => default_stencil_test(),
    };
    (t.comparison, t.reference, t.mask)
}

/// Stencil operations, those that keep the value where there are none.
pub open spec fn ops_or_default(o: Option<StencilOps>) -> StencilOps {
    match o {
        Some(o) => o,
        None => default_stencil_ops(),
    }
}

/// The state carries out the settings `p`, the viewport aside: each test
/// is on exactly when the settings have it, with its values, and the
/// stencil operations and the masks are those of the settings.
pub open spec fn realizes(s: PipelineState, p: DrawParams) -> bool {
    &&& s.scissor_test == p.scissor is Some
    &&& (p.scissor matches Some(r) ==> s.scissor == rect_args(r))
    &&& s.cull_test == p.cull_face is Some
    &&& (p.cull_face matches Some(c) ==> s.cull_face == c)
    &&& s.stencil_test == (p.stencil_test_front is Some || p.stencil_test_back is Some)
    &&& (s.stencil_test ==> s.stencil_func_front == stencil_args(p.stencil_test_front) && s.stencil_func_back
        == stencil_args(p.stencil_test_back))
    &&& s.stencil_ops_front == ops_or_default(p.stencil_ops_front)
    &&& s.stencil_ops_back == ops_or_default(p.stencil_ops_back)
    &&& s.depth_test == p.depth_test is Some
    &&& (p.depth_test matches Some(c) ==> s.depth_func == c)
    &&& s.blend == p.blending is Some
    &&& (p.blending matches Some(b) ==> {
        &&& s.blend_equation == (b.color_equation, b.alpha_equation)
        &&& s.blend_func == (b.src_func_color, b.dst_func_color, b.src_func_alpha, b.dst_func_alpha)
        &&& s.blend_color == b.constant_color
    })
    &&& s.stencil_mask_front == p.stencil_mask_front
    &&& s.stencil_mask_back == p.stencil_mask_back
    &&& s.depth_mask == p.depth_mask
    &&& s.color_mask == p.color_mask
}

proof fn lemma_apply_all_push(s: PipelineState, cs: Seq<StateChange>, c: StateChange)
    ensures
        apply_all(s, cs.push(c)) == apply(apply_all(s, cs), c),
{
    assert(cs.push(c).drop_last() =~= cs);
    assert(cs.push(c).last() == c);
}

proof fn lemma_apply_all_append(s: PipelineState, a: Seq<StateChange>, b: Seq<StateChange>)
    ensures
        apply_all(s, a + b) == apply_all(apply_all(s, a), b),
    decreases b.len(),
{
    if b.len() == 0 {
        assert(a + b =~= a);
    } else {
        assert((a + b).drop_last() =~= a + b.drop_last());
        assert((a + b).last() == b.last());
        lemma_apply_all_append(s, a, b.drop_last());
    }
}

proof fn lemma_apply_all_empty(s: PipelineState)
    ensures
        apply_all(s, Seq::<StateChange>::empty()) == s,
{
}

proof fn lemma_apply_all_one(s: PipelineState, c: StateChange)
    ensures
        apply_all(s, seq![c]) == apply(s, c),
{
    lemma_apply_all_push(s, Seq::<StateChange>::empty(), c);
    assert(Seq::<StateChange>::empty().push(c) =~= seq![c]);
}

proof fn lemma_apply_all_two(s: PipelineState, c: StateChange, d: StateChange)
    ensures
        apply_all(s, seq![c, d]) == apply(apply(s, c), d),
{
    lemma_apply_all_one(s, c);
    lemma_apply_all_push(s, seq![c], d);
    assert(seq![c].push(d) =~= seq![c, d]);
}

proof fn lemma_apply_all_three(s: PipelineState, c1: StateChange, c2: StateChange, c3: StateChange)
    ensures
        apply_all(s, seq![c1, c2, c3]) == apply(apply(apply(s, c1), c2), c3),
{
    lemma_apply_all_two(s, c1, c2);
    lemma_apply_all_push(s, seq![c1, c2], c3);
    assert(seq![c1, c2].push(c3) =~= seq![c1, c2, c3]);
}

proof fn lemma_apply_all_four(s: PipelineState, c1: StateChange, c2: StateChange, c3: StateChange, c4: StateChange)
    ensures
        apply_all(s, seq![c1, c2, c3, c4]) == apply(apply(apply(apply(s, c1), c2), c3), c4),
{
    lemma_apply_all_three(s, c1, c2, c3);
    lemma_apply_all_push(s, seq![c1, c2, c3], c4);
    assert(seq![c1, c2, c3].push(c4) =~= seq![c1, c2, c3, c4]);
}

/// The stencil test settings that the delta carries out: both faces are
/// set from the front test, so the back test is carried out when it agrees
/// with the front test, or when the tests do not change.
pub open spec fn stencil_tests_agree(new: DrawParams, cur: DrawParams) -> bool {
    (new.stencil_test_front is Some || new.stencil_test_back is Some) && (new.stencil_test_front
        != cur.stencil_test_front || new.stencil_test_back != cur.stencil_test_back) ==> stencil_args(
        new.stencil_test_front,
    ) == stencil_args(new.stencil_test_back)
}

/// The back stencil mask that the delta carries out: it is compared with
/// the new front mask, so it is carried out unless the new front mask
/// equals the current back mask while the back mask changes.
pub open spec fn back_mask_carried(new: DrawParams, cur: DrawParams) -> bool {
    new.stencil_mask_front == cur.stencil_mask_back ==> new.stencil_mask_back == cur.stencil_mask_back
}

/// Applying the changes that `DrawParams::set_delta` gives takes a
/// pipeline that carries out the current settings to one that carries out
/// the new settings, with the viewport of the new settings. It holds except
/// where the back stencil test differs from the front test while the tests
/// change, or where the back mask changes while the new front mask equals
/// the current back mask.
pub proof fn lemma_delta_realizes(s: PipelineState, new: DrawParams, cur: DrawParams, framebuffer_size: [u32; 2])
    requires
        realizes(s, cur),
        stencil_tests_agree(new, cur),
        back_mask_carried(new, cur),
    ensures
        realizes(apply_all(s, delta_changes(new, cur, framebuffer_size)), new),
        apply_all(s, delta_changes(new, cur, framebuffer_size)).viewport == rect_args(
            effective_viewport(new.viewport, framebuffer_size),
        ),
{
    lemma_delta_parts(s, new, cur, framebuffer_size);
}

proof fn lemma_scissor_part(s: PipelineState, new: DrawParams, cur: DrawParams)
    ensures
        ({
            let t = apply_all(s, scissor_changes(new, cur));
            &&& t == (PipelineState { scissor_test: t.scissor_test, scissor: t.scissor, ..s })
            &&& new.scissor != cur.scissor ==> t.scissor_test == new.scissor is Some
            &&& new.scissor != cur.scissor ==> (new.scissor matches Some(r) ==> t.scissor == rect_args(r))
            &&& new.scissor == cur.scissor ==> t == s
        }),
{
    lemma_apply_all_empty(s);
    if let Some(r) = new.scissor {
        lemma_apply_all_two(s, StateChange::Enable(Capability::ScissorTest), scissor_of(r));
    } else {
        lemma_apply_all_one(s, StateChange::Disable(Capability::ScissorTest));
    }
}

proof fn lemma_cull_part(s: PipelineState, new: DrawParams, cur: DrawParams)
    ensures
        ({
            let t = apply_all(s, cull_changes(new, cur));
            &&& t == (PipelineState { cull_test: t.cull_test, cull_face: t.cull_face, ..s })
            &&& new.cull_face != cur.cull_face ==> t.cull_test == new.cull_face is Some
            &&& new.cull_face != cur.cull_face ==> (new.cull_face matches Some(c) ==> t.cull_face == c)
            &&& new.cull_face == cur.cull_face ==> t == s
        }),
{
    lemma_apply_all_empty(s);
    if let Some(c) = new.cull_face {
        lemma_apply_all_two(s, StateChange::Enable(Capability::CullFace), StateChange::CullFace(c));
    } else {
        lemma_apply_all_one(s, StateChange::Disable(Capability::CullFace));
    }
}

proof fn lemma_stencil_test_part(s: PipelineState, new: DrawParams, cur: DrawParams)
    ensures
        ({
            let t = apply_all(s, stencil_test_changes(new, cur));
            let changed = new.stencil_test_front != cur.stencil_test_front || new.stencil_test_back
                != cur.stencil_test_back;
            &&& t == (PipelineState {
                stencil_test: t.stencil_test,
                stencil_func_front: t.stencil_func_front,
                stencil_func_back: t.stencil_func_back,
                ..s
            })
            &&& changed ==> t.stencil_test == (new.stencil_test_front is Some || new.stencil_test_back is Some)
            &&& changed && t.stencil_test ==> t.stencil_func_front == stencil_args(new.stencil_test_front)
                && t.stencil_func_back == stencil_args(new.stencil_test_front)
            &&& !changed ==> t == s
        }),
{
    lemma_apply_all_empty(s);
    let front = match new.stencil_test_front {
        Some(t) => t,
        None => default_stencil_test(),
    };
    lemma_apply_all_three(
        s,
        StateChange::Enable(Capability::StencilTest),
        StateChange::StencilFunc {
            face: Face::Front,
            comparison: front.comparison,
            reference: front.reference,
            mask: front.mask,
        },
        StateChange::StencilFunc {
            face: Face::Back,
            comparison: front.comparison,
            reference: front.reference,
            mask: front.mask,
        },
    );
    lemma_apply_all_one(s, StateChange::Disable(Capability::StencilTest));
}

proof fn lemma_stencil_ops_part(s: PipelineState, new: DrawParams, cur: DrawParams)
    ensures
        ({
            let t = apply_all(s, stencil_ops_changes(new, cur));
            let changed = new.stencil_ops_front != cur.stencil_ops_front || new.stencil_ops_back
                != cur.stencil_ops_back;
            &&& t == (PipelineState { stencil_ops_front: t.stencil_ops_front, stencil_ops_back: t.stencil_ops_back, ..s })
            &&& changed ==> t.stencil_ops_front == ops_or_default(new.stencil_ops_front)
                && t.stencil_ops_back == ops_or_default(new.stencil_ops_back)
            &&& !changed ==> t == s
        }),
{
    lemma_apply_all_empty(s);
    let c1 = StateChange::StencilOp { face: Face::Front, ops: ops_or_default(new.stencil_ops_front) };
    let c2 = StateChange::StencilOp { face: Face::Back, ops: ops_or_default(new.stencil_ops_back) };
    lemma_apply_all_two(s, c1, c2);
    if new.stencil_ops_front != cur.stencil_ops_front || new.stencil_ops_back != cur.stencil_ops_back {
        assert(stencil_ops_changes(new, cur) == seq![c1, c2]);
    } else {
        assert(stencil_ops_changes(new, cur) == Seq::<StateChange>::empty());
    }
}

proof fn lemma_depth_part(s: PipelineState, new: DrawParams, cur: DrawParams)
    ensures
        ({
            let t = apply_all(s, depth_changes(new, cur));
            &&& t == (PipelineState { depth_test: t.depth_test, depth_func: t.depth_func, ..s })
            &&& new.depth_test != cur.depth_test ==> t.depth_test == new.depth_test is Some
            &&& new.depth_test != cur.depth_test ==> (new.depth_test matches Some(c) ==> t.depth_func == c)
            &&& new.depth_test == cur.depth_test ==> t == s
        }),
{
    lemma_apply_all_empty(s);
    if let Some(c) = new.depth_test {
        lemma_apply_all_two(s, StateChange::Enable(Capability::DepthTest), StateChange::DepthFunc(c));
    } else {
        lemma_apply_all_one(s, StateChange::Disable(Capability::DepthTest));
    }
}

proof fn lemma_blend_part(s: PipelineState, new: DrawParams, cur: DrawParams)
    ensures
        ({
            let t = apply_all(s, blend_changes(new, cur));
            &&& t == (PipelineState {
                blend: t.blend,
                blend_equation: t.blend_equation,
                blend_func: t.blend_func,
                blend_color: t.blend_color,
                ..s
            })
            &&& new.blending != cur.blending ==> t.blend == new.blending is Some
            &&& new.blending != cur.blending ==> (new.blending matches Some(b) ==> {
                &&& t.blend_equation == (b.color_equation, b.alpha_equation)
                &&& t.blend_func == (b.src_func_color, b.dst_func_color, b.src_func_alpha, b.dst_func_alpha)
                &&& t.blend_color == b.constant_color
            })
            &&& new.blending == cur.blending ==> t == s
        }),
{
    lemma_apply_all_empty(s);
    if let Some(b) = new.blending {
        lemma_apply_all_four(
            s,
            StateChange::Enable(Capability::Blend),
            StateChange::BlendEquation { color: b.color_equation, alpha: b.alpha_equation },
            StateChange::BlendFunc {
                src_color: b.src_func_color,
                dst_color: b.dst_func_color,
                src_alpha: b.src_func_alpha,
                dst_alpha: b.dst_func_alpha,
            },
            StateChange::BlendColor(b.constant_color),
        );
    } else {
        lemma_apply_all_one(s, StateChange::Disable(Capability::Blend));
    }
}

proof fn lemma_optional_change(s: PipelineState, changed: bool, c: StateChange)
    ensures
        apply_all(s, if changed { seq![c] } else { Seq::<StateChange>::empty() }) == if changed {
            apply(s, c)
        } else {
            s
        },
{
    lemma_apply_all_empty(s);
    lemma_apply_all_one(s, c);
}

#[verifier::rlimit(40)]
proof fn lemma_mask_part(s: PipelineState, new: DrawParams, cur: DrawParams)
    ensures
        ({
            let t = apply_all(s, mask_changes(new, cur));
            &&& t == (PipelineState {
                stencil_mask_front: t.stencil_mask_front,
                stencil_mask_back: t.stencil_mask_back,
                depth_mask: t.depth_mask,
                color_mask: t.color_mask,
                ..s
            })
            &&& t.stencil_mask_front == if new.stencil_mask_front == cur.stencil_mask_front {
                s.stencil_mask_front
            } else {
                new.stencil_mask_front
            }
            &&& t.stencil_mask_back == if new.stencil_mask_front == cur.stencil_mask_back {
                s.stencil_mask_back
            } else {
                new.stencil_mask_back
            }
            &&& t.depth_mask == if new.depth_mask == cur.depth_mask {
                s.depth_mask
            } else {
                new.depth_mask
            }
            &&& t.color_mask == if new.color_mask == cur.color_mask {
                s.color_mask
            } else {
                new.color_mask
            }
        }),
{
    let c1 = StateChange::StencilMask { face: Face::Front, mask: new.stencil_mask_front };
    let c2 = StateChange::StencilMask { face: Face::Back, mask: new.stencil_mask_back };
    let c3 = StateChange::DepthMask(new.depth_mask);
    let c4 = StateChange::ColorMask(new.color_mask);
    let b1 = new.stencil_mask_front != cur.stencil_mask_front;
    let b2 = new.stencil_mask_front != cur.stencil_mask_back;
    let b3 = new.depth_mask != cur.depth_mask;
    let b4 = new.color_mask != cur.color_mask;
    let m1 = if b1 { seq![c1] } else { Seq::<StateChange>::empty() };
    let m2 = if b2 { seq![c2] } else { Seq::<StateChange>::empty() };
    let m3 = if b3 { seq![c3] } else { Seq::<StateChange>::empty() };
    let m4 = if b4 { seq![c4] } else { Seq::<StateChange>::empty() };
    assert(mask_changes(new, cur) == m1 + m2 + m3 + m4);
    lemma_apply_all_append(s, m1 + m2 + m3, m4);
    lemma_apply_all_append(s, m1 + m2, m3);
    lemma_apply_all_append(s, m1, m2);
    let s1 = apply_all(s, m1);
    let s2 = apply_all(s1, m2);
    let s3 = apply_all(s2, m3);
    lemma_optional_change(s, b1, c1);
    assert(s1 == (PipelineState { stencil_mask_front: s1.stencil_mask_front, ..s }));
    lemma_optional_change(s1, b2, c2);
    assert(s2 == (PipelineState { stencil_mask_back: s2.stencil_mask_back, ..s1 }));
    lemma_optional_change(s2, b3, c3);
    assert(s3 == (PipelineState { depth_mask: s3.depth_mask, ..s2 }));
    lemma_optional_change(s3, b4, c4);
}

#[verifier::rlimit(40)]
proof fn lemma_delta_parts(s: PipelineState, new: DrawParams, cur: DrawParams, framebuffer_size: [u32; 2])
    requires
        realizes(s, cur),
        stencil_tests_agree(new, cur),
        back_mask_carried(new, cur),
    ensures
        realizes(apply_all(s, delta_changes(new, cur, framebuffer_size)), new),
        apply_all(s, delta_changes(new, cur, framebuffer_size)).viewport == rect_args(
            effective_viewport(new.viewport, framebuffer_size),
        ),
{
    let a = scissor_changes(new, cur);
    let vc = viewport_of(effective_viewport(new.viewport, framebuffer_size));
    let v = seq![vc];
    let b = cull_changes(new, cur);
    let c = stencil_test_changes(new, cur);
    let d = stencil_ops_changes(new, cur);
    let e = depth_changes(new, cur);
    let f = blend_changes(new, cur);
    let g = mask_changes(new, cur);
    assert(delta_changes(new, cur, framebuffer_size) == a + v + b + c + d + e + f + g);
    lemma_apply_all_append(s, a + v + b + c + d + e + f, g);
    lemma_apply_all_append(s, a + v + b + c + d + e, f);
    lemma_apply_all_append(s, a + v + b + c + d, e);
    lemma_apply_all_append(s, a + v + b + c, d);
    lemma_apply_all_append(s, a + v + b, c);
    lemma_apply_all_append(s, a + v, b);
    lemma_apply_all_append(s, a, v);
    let s1 = apply_all(s, a);
    lemma_scissor_part(s, new, cur);
    lemma_apply_all_one(s1, vc);
    let s2 = apply_all(s1, v);
    lemma_cull_part(s2, new, cur);
    let s3 = apply_all(s2, b);
    lemma_stencil_test_part(s3, new, cur);
    let s4 = apply_all(s3, c);
    lemma_stencil_ops_part(s4, new, cur);
    let s5 = apply_all(s4, d);
    lemma_depth_part(s5, new, cur);
    let s6 = apply_all(s5, e);
    lemma_blend_part(s6, new, cur);
    let s7 = apply_all(s6, f);
    lemma_mask_part(s7, new, cur);
}

} // verus!
