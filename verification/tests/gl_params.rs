use posh::gl::raw::params::{
    clear_commands, BlendEquation, BlendFunc, Blending, Capability, ClearCommand, ClearParams, Comparison, CullFace,
    DrawParams, Face, Rect, StateChange, StencilOps, StencilTest,
};

fn viewport(w: i32, h: i32) -> StateChange {
    StateChange::Viewport { x: 0, y: 0, width: w, height: h }
}

#[test]
fn same_settings_only_set_the_viewport() {
    let params = DrawParams::new();
    assert_eq!(params.set_delta(&params, [640, 480]), vec![viewport(640, 480)]);
}

#[test]
fn explicit_viewport_is_used() {
    let rect = Rect { lower_left_corner: [10, 20], size: [30, 40] };
    let params = DrawParams::new().with_viewport(rect);
    assert_eq!(
        params.set_delta(&params, [640, 480]),
        vec![StateChange::Viewport { x: 10, y: 20, width: 30, height: 40 }]
    );
}

#[test]
fn enabling_and_disabling_depth_test_and_culling() {
    let current = DrawParams::new();
    let new = DrawParams::new().with_depth_test(Comparison::Less).with_cull_face(CullFace::Back);
    assert_eq!(
        new.set_delta(&current, [1, 1]),
        vec![
            viewport(1, 1),
            StateChange::Enable(Capability::CullFace),
            StateChange::CullFace(CullFace::Back),
            StateChange::Enable(Capability::DepthTest),
            StateChange::DepthFunc(Comparison::Less),
        ]
    );
    assert_eq!(
        current.set_delta(&new, [1, 1]),
        vec![viewport(1, 1), StateChange::Disable(Capability::CullFace), StateChange::Disable(Capability::DepthTest)]
    );
}

#[test]
fn scissor_is_switched() {
    let rect = Rect { lower_left_corner: [1, 2], size: [3, 4] };
    let new = DrawParams::new().with_scissor(rect);
    assert_eq!(
        new.set_delta(&DrawParams::new(), [5, 5]),
        vec![
            StateChange::Enable(Capability::ScissorTest),
            StateChange::Scissor { x: 1, y: 2, width: 3, height: 4 },
            viewport(5, 5),
        ]
    );
}

#[test]
fn blending_sets_equations_factors_and_color() {
    let new = DrawParams::new().with_blending(Blending::alpha());
    assert_eq!(
        new.set_delta(&DrawParams::new(), [2, 2]),
        vec![
            viewport(2, 2),
            StateChange::Enable(Capability::Blend),
            StateChange::BlendEquation { color: BlendEquation::Add, alpha: BlendEquation::Add },
            StateChange::BlendFunc {
                src_color: BlendFunc::SrcAlpha,
                dst_color: BlendFunc::OneMinusSrcAlpha,
                src_alpha: BlendFunc::SrcAlpha,
                dst_alpha: BlendFunc::OneMinusSrcAlpha,
            },
            StateChange::BlendColor([0, 0, 0, 0]),
        ]
    );
}

#[test]
fn stencil_test_sets_both_faces_from_the_front_test() {
    let test = StencilTest { comparison: Comparison::Equal, reference: 3, mask: 0xff };
    let new = DrawParams::new().with_stencil_test_front(test);
    assert_eq!(
        new.set_delta(&DrawParams::new(), [1, 1]),
        vec![
            viewport(1, 1),
            StateChange::Enable(Capability::StencilTest),
            StateChange::StencilFunc { face: Face::Front, comparison: Comparison::Equal, reference: 3, mask: 0xff },
            StateChange::StencilFunc { face: Face::Back, comparison: Comparison::Equal, reference: 3, mask: 0xff },
        ]
    );
}

#[test]
fn stencil_ops_set_both_faces() {
    let ops = StencilOps { stencil_fail: posh::gl::raw::params::StencilOp::Zero, ..StencilOps::default() };
    let new = DrawParams::new().with_stencil_ops_back(ops);
    assert_eq!(
        new.set_delta(&DrawParams::new(), [1, 1]),
        vec![
            viewport(1, 1),
            StateChange::StencilOp { face: Face::Front, ops: StencilOps::default() },
            StateChange::StencilOp { face: Face::Back, ops },
        ]
    );
}

#[test]
fn masks_are_set_when_they_change() {
    let new = DrawParams::new().with_depth_mask(false).with_color_mask([true, false, true, false]);
    assert_eq!(
        new.set_delta(&DrawParams::new(), [1, 1]),
        vec![viewport(1, 1), StateChange::DepthMask(false), StateChange::ColorMask([true, false, true, false])]
    );
}

#[test]
fn back_stencil_mask_is_compared_with_the_front_mask() {
    let new = DrawParams::new().with_stencil_mask_front(1).with_stencil_mask_back(2);
    assert_eq!(
        new.set_delta(&new, [1, 1]),
        vec![viewport(1, 1), StateChange::StencilMask { face: Face::Back, mask: 2 }]
    );
}

#[test]
fn default_settings() {
    let p = DrawParams::default();
    assert_eq!(p.stencil_mask_front, 0xffff_ffff);
    assert!(p.depth_mask);
    assert_eq!(p.color_mask, [true; 4]);
    assert_eq!(StencilTest::default().mask, 0xffff_ffff);
    assert_eq!(Blending::default().src_func_color, BlendFunc::One);
    assert_eq!(Blending::max().color_equation, BlendEquation::Max);
}

#[test]
fn clearing_sets_values_then_clears_once() {
    let params = ClearParams { color: Some([1, 2, 3, 4]), depth: None, stencil: Some(7) };
    assert_eq!(
        clear_commands(&params),
        vec![
            ClearCommand::ClearStencil(7),
            ClearCommand::ClearColor([1, 2, 3, 4]),
            ClearCommand::Clear { stencil: true, depth: false, color: true },
        ]
    );
    assert_eq!(clear_commands(&ClearParams::default()), vec![]);
}

/// The parts of the pipeline state that the settings change, as the calls
/// leave them.
#[derive(Debug, Clone, Copy, PartialEq, Eq, Default)]
struct Pipeline {
    scissor_test: bool,
    scissor: Option<(i32, i32, i32, i32)>,
    cull_face: Option<CullFace>,
    depth_test: bool,
    depth_func: Option<Comparison>,
    blend: bool,
    blend_color: Option<[u32; 4]>,
    stencil_mask: [u32; 2],
    depth_mask: bool,
    color_mask: [bool; 4],
    viewport: Option<(i32, i32, i32, i32)>,
}

fn run(mut p: Pipeline, changes: &[StateChange]) -> Pipeline {
    for c in changes {
        match *c {
            StateChange::Enable(Capability::ScissorTest) => p.scissor_test = true,
            StateChange::Disable(Capability::ScissorTest) => p.scissor_test = false,
            StateChange::Enable(Capability::DepthTest) => p.depth_test = true,
            StateChange::Disable(Capability::DepthTest) => p.depth_test = false,
            StateChange::Enable(Capability::Blend) => p.blend = true,
            StateChange::Disable(Capability::Blend) => p.blend = false,
            StateChange::Scissor { x, y, width, height } => p.scissor = Some((x, y, width, height)),
            StateChange::Viewport { x, y, width, height } => p.viewport = Some((x, y, width, height)),
            StateChange::CullFace(f) => p.cull_face = Some(f),
            StateChange::DepthFunc(f) => p.depth_func = Some(f),
            StateChange::BlendColor(c) => p.blend_color = Some(c),
            StateChange::StencilMask { face: Face::Front, mask } => p.stencil_mask[0] = mask,
            StateChange::StencilMask { face: Face::Back, mask } => p.stencil_mask[1] = mask,
            StateChange::DepthMask(m) => p.depth_mask = m,
            StateChange::ColorMask(m) => p.color_mask = m,
            _ => {}
        }
    }
    p
}

#[test]
fn applying_the_delta_reaches_the_new_settings() {
    let initial = Pipeline {
        stencil_mask: [0xffff_ffff, 0xffff_ffff],
        depth_mask: true,
        color_mask: [true; 4],
        ..Pipeline::default()
    };
    let first = DrawParams::new()
        .with_scissor(Rect { lower_left_corner: [1, 2], size: [3, 4] })
        .with_depth_test(Comparison::Greater)
        .with_blending(Blending::default().with_constant_color([1, 2, 3, 4]))
        .with_stencil_mask(7)
        .with_color_mask([true, false, true, false]);
    let after_first = run(initial, &first.set_delta(&DrawParams::new(), [8, 8]));
    assert!(after_first.scissor_test);
    assert_eq!(after_first.scissor, Some((1, 2, 3, 4)));
    assert!(after_first.depth_test);
    assert_eq!(after_first.depth_func, Some(Comparison::Greater));
    assert!(after_first.blend);
    assert_eq!(after_first.blend_color, Some([1, 2, 3, 4]));
    assert_eq!(after_first.stencil_mask, [7, 7]);
    assert_eq!(after_first.color_mask, [true, false, true, false]);
    assert_eq!(after_first.viewport, Some((0, 0, 8, 8)));

    // Going back to the defaults switches everything off again.
    let back = run(after_first, &DrawParams::new().set_delta(&first, [8, 8]));
    assert!(!back.scissor_test);
    assert!(!back.depth_test);
    assert!(!back.blend);
    assert_eq!(back.stencil_mask, [0xffff_ffff, 0xffff_ffff]);
    assert_eq!(back.color_mask, [true; 4]);
}
