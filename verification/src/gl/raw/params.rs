use vstd::prelude::*;

verus! {

/// A rectangle of pixels.
#[derive(Debug, Copy, Clone, PartialEq, Eq)]
pub struct Rect {
    pub lower_left_corner: [u32; 2],
    pub size: [u32; 2],
}

/// A comparison of a value with a reference value.
#[derive(Debug, Copy, Clone, PartialEq, Eq, Structural)]
pub enum Comparison {
    Always,
    Equal,
    Greater,
    GreaterOrEqual,
    Less,
    LessOrEqual,
    Never,
    NotEqual,
}

/// The faces that are culled.
#[derive(Debug, Copy, Clone, PartialEq, Eq, Structural)]
pub enum CullFace {
    Front,
    Back,
}

/// How source and destination are combined in blending.
#[derive(Debug, Copy, Clone, PartialEq, Eq, Structural)]
pub enum BlendEquation {
    Add,
    Subtract,
    ReverseSubtract,
    Min,
    Max,
}

/// A blending factor.
#[derive(Debug, Copy, Clone, PartialEq, Eq, Structural)]
pub enum BlendFunc {
    Zero,
    One,
    SrcColor,
    OneMinusSrcColor,
    DstColor,
    OneMinusDstColor,
    SrcAlpha,
    OneMinusSrcAlpha,
    DstAlpha,
    OneMinusDstAlpha,
    ConstantColor,
    OneMinusConstantColor,
    ConstantAlpha,
    OneMinusConstantAlpha,
    SrcAlphaSaturate,
}

/// The blending settings. The constant color is held as the bit patterns of
/// its four single-precision components.
#[derive(Debug, Copy, Clone, PartialEq, Eq)]
pub struct Blending {
    pub color_equation: BlendEquation,
    pub alpha_equation: BlendEquation,
    pub src_func_color: BlendFunc,
    pub dst_func_color: BlendFunc,
    pub src_func_alpha: BlendFunc,
    pub dst_func_alpha: BlendFunc,
    pub constant_color: [u32; 4],
}

/// An operation on the stencil buffer.
#[derive(Debug, Copy, Clone, PartialEq, Eq, Structural)]
pub enum StencilOp {
    Keep,
    Zero,
    Replace,
    Increment,
    Decrement,
    Invert,
    IncrementWrap,
    DecrementWrap,
}

/// The stencil test of one face.
#[derive(Debug, Copy, Clone, PartialEq, Eq, Structural)]
pub struct StencilTest {
    pub comparison: Comparison,
    pub reference: i32,
    pub mask: u32,
}

/// The stencil operations of one face.
#[derive(Debug, Copy, Clone, PartialEq, Eq, Structural)]
pub struct StencilOps {
    pub stencil_fail: StencilOp,
    pub depth_fail: StencilOp,
    pub depth_pass: StencilOp,
}

/// The per-draw settings of the pipeline.
#[derive(Debug, Copy, Clone, PartialEq, Eq)]
pub struct DrawParams {
    pub viewport: Option<Rect>,
    pub cull_face: Option<CullFace>,
    pub scissor: Option<Rect>,
    pub stencil_test_front: Option<StencilTest>,
    pub stencil_test_back: Option<StencilTest>,
    pub stencil_ops_front: Option<StencilOps>,
    pub stencil_ops_back: Option<StencilOps>,
    pub depth_test: Option<Comparison>,
    pub blending: Option<Blending>,
    pub stencil_mask_front: u32,
    pub stencil_mask_back: u32,
    pub depth_mask: bool,
    pub color_mask: [bool; 4],
}

/// What to clear a framebuffer with. The color and the depth are held as
/// the bit patterns of their single-precision values.
#[derive(Debug, Copy, Clone, PartialEq, Eq)]
pub struct ClearParams {
    pub color: Option<[u32; 4]>,
    pub depth: Option<u32>,
    pub stencil: Option<u8>,
}

/// A face of a primitive, for the stencil settings.
#[derive(Debug, Copy, Clone, PartialEq, Eq, Structural)]
pub enum Face {
    Front,
    Back,
}

/// A switchable capability of the pipeline.
#[derive(Debug, Copy, Clone, PartialEq, Eq, Structural)]
pub enum Capability {
    ScissorTest,
    CullFace,
    StencilTest,
    DepthTest,
    Blend,
}

/// One change of the pipeline state.
#[derive(Debug, Copy, Clone, PartialEq, Eq)]
pub enum StateChange {
    Enable(Capability),
    Disable(Capability),
    Scissor { x: i32, y: i32, width: i32, height: i32 },
    Viewport { x: i32, y: i32, width: i32, height: i32 },
    CullFace(CullFace),
    StencilFunc { face: Face, comparison: Comparison, reference: i32, mask: u32 },
    StencilOp { face: Face, ops: StencilOps },
    DepthFunc(Comparison),
    BlendEquation { color: BlendEquation, alpha: BlendEquation },
    BlendFunc { src_color: BlendFunc, dst_color: BlendFunc, src_alpha: BlendFunc, dst_alpha: BlendFunc },
    BlendColor([u32; 4]),
    StencilMask { face: Face, mask: u32 },
    DepthMask(bool),
    ColorMask([bool; 4]),
}

impl Default for StencilTest {
    /// Always passing, with reference 0 and all bits of the mask set.
    fn default() -> (r: Self)
        ensures
            r == default_stencil_test(),
    {
        StencilTest { comparison: Comparison::Always, reference: 0, mask: 0xffff_ffff }
    }
}

/// The stencil test that always passes.
pub open spec fn default_stencil_test() -> StencilTest {
    StencilTest { comparison: Comparison::Always, reference: 0, mask: 0xffff_ffff }
}

impl Default for StencilOps {
    /// Keeping the stencil value in every case.
    fn default() -> (r: Self)
        ensures
            r == default_stencil_ops(),
    {
        StencilOps { stencil_fail: StencilOp::Keep, depth_fail: StencilOp::Keep, depth_pass: StencilOp::Keep }
    }
}

/// The stencil operations that keep the stencil value.
pub open spec fn default_stencil_ops() -> StencilOps {
    StencilOps { stencil_fail: StencilOp::Keep, depth_fail: StencilOp::Keep, depth_pass: StencilOp::Keep }
}

impl Default for Blending {
    /// Adding the source to nothing of the destination.
    fn default() -> (r: Self)
        ensures
            r == default_blending(),
    {
        Blending {
            color_equation: BlendEquation::Add,
            alpha_equation: BlendEquation::Add,
            src_func_color: BlendFunc::One,
            src_func_alpha: BlendFunc::One,
            dst_func_color: BlendFunc::Zero,
            dst_func_alpha: BlendFunc::Zero,
            constant_color: [0, 0, 0, 0],
        }
    }
}

/// Blending that writes the source unchanged.
pub open spec fn default_blending() -> Blending {
    Blending {
        color_equation: BlendEquation::Add,
        alpha_equation: BlendEquation::Add,
        src_func_color: BlendFunc::One,
        src_func_alpha: BlendFunc::One,
        dst_func_color: BlendFunc::Zero,
        dst_func_alpha: BlendFunc::Zero,
        constant_color: [0, 0, 0, 0],
    }
}

impl Default for DrawParams {
    /// No viewport, culling, scissor, stencil, depth test or blending; all
    /// masks open.
    fn default() -> (r: Self)
        ensures
            r == default_draw_params(),
    {
        DrawParams {
            viewport: None,
            cull_face: None,
            scissor: None,
            stencil_test_front: None,
            stencil_test_back: None,
            stencil_ops_front: None,
            stencil_ops_back: None,
            depth_test: None,
            blending: None,
            stencil_mask_front: 0xffff_ffff,
            stencil_mask_back: 0xffff_ffff,
            depth_mask: true,
            color_mask: [true, true, true, true],
        }
    }
}

/// The draw settings that change nothing of the pipeline's initial state.
pub open spec fn default_draw_params() -> DrawParams {
    DrawParams {
        viewport: None,
        cull_face: None,
        scissor: None,
        stencil_test_front: None,
        stencil_test_back: None,
        stencil_ops_front: None,
        stencil_ops_back: None,
        depth_test: None,
        blending: None,
        stencil_mask_front: 0xffff_ffff,
        stencil_mask_back: 0xffff_ffff,
        depth_mask: true,
        color_mask: [true, true, true, true],
    }
}

impl Default for ClearParams {
    /// Clearing nothing.
    fn default() -> (r: Self)
        ensures
            r.color is None && r.depth is None && r.stencil is None,
    {
        ClearParams { color: None, depth: None, stencil: None }
    }
}


/// Every coordinate of the rectangle fits in an `i32`.
pub open spec fn rect_fits(r: Rect) -> bool {
    &&& r.lower_left_corner[0] <= i32::MAX
    &&& r.lower_left_corner[1] <= i32::MAX
    &&& r.size[0] <= i32::MAX
    &&& r.size[1] <= i32::MAX
}

/// The scissor box of rectangle `r`.
pub open spec fn scissor_of(r: Rect) -> StateChange {
    StateChange::Scissor {
        x: r.lower_left_corner[0] as i32,
        y: r.lower_left_corner[1] as i32,
        width: r.size[0] as i32,
        height: r.size[1] as i32,
    }
}

/// The viewport of rectangle `r`.
pub open spec fn viewport_of(r: Rect) -> StateChange {
    StateChange::Viewport {
        x: r.lower_left_corner[0] as i32,
        y: r.lower_left_corner[1] as i32,
        width: r.size[0] as i32,
        height: r.size[1] as i32,
    }
}

/// The viewport that a draw uses: the one given, or the whole framebuffer.
pub open spec fn effective_viewport(viewport: Option<Rect>, framebuffer_size: [u32; 2]) -> Rect {
    match viewport {
        Some(r) => r,
        None => Rect { lower_left_corner: [0, 0], size: framebuffer_size },
    }
}

/// The scissor changes: the test switched on with the new box, or off.
pub open spec fn scissor_changes(new: DrawParams, cur: DrawParams) -> Seq<StateChange> {
    if new.scissor == cur.scissor {
        seq![]
    } else {
        match new.scissor {
            Some(r) => seq![StateChange::Enable(Capability::ScissorTest), scissor_of(r)],
            None => seq![StateChange::Disable(Capability::ScissorTest)],
        }
    }
}

/// The culling changes.
pub open spec fn cull_changes(new: DrawParams, cur: DrawParams) -> Seq<StateChange> {
    if new.cull_face == cur.cull_face {
        seq![]
    } else {
        match new.cull_face {
            Some(c) => seq![StateChange::Enable(Capability::CullFace), StateChange::CullFace(c)],
            None => seq![StateChange::Disable(Capability::CullFace)],
        }
    }
}

/// The stencil test changes. Both faces are set from the front test.
pub open spec fn stencil_test_changes(new: DrawParams, cur: DrawParams) -> Seq<StateChange> {
    let front = match new.stencil_test_front {
        Some(t) => t,
        None => default_stencil_test(),
    };
    if new.stencil_test_front == cur.stencil_test_front && new.stencil_test_back == cur.stencil_test_back {
        seq![]
    } else if new.stencil_test_front is Some || new.stencil_test_back is Some {
        seq![
            StateChange::Enable(Capability::StencilTest),
            StateChange::StencilFunc {
                face: Face::Front,
                comparison: front.comparison,
                reference: front.reference,
                mask: front.mask,
            },
            StateChange::StencilFunc {
                face: Face::Back,
                comparison: front.comparison,
                reference: front.reference,
                mask: front.mask,
            },
        ]
    } else {
        seq![StateChange::Disable(Capability::StencilTest)]
    }
}

/// The stencil operation changes: both faces are set when either differs.
pub open spec fn stencil_ops_changes(new: DrawParams, cur: DrawParams) -> Seq<StateChange> {
    if new.stencil_ops_front == cur.stencil_ops_front && new.stencil_ops_back == cur.stencil_ops_back {
        seq![]
    } else {
        seq![
            StateChange::StencilOp {
                face: Face::Front,
                ops: match new.stencil_ops_front {
                    Some(o) => o,
                    None => default_stencil_ops(),
                },
            },
            StateChange::StencilOp {
                face: Face::Back,
                ops: match new.stencil_ops_back {
                    Some(o) => o,
                    None => default_stencil_ops(),
                },
            },
        ]
    }
}

/// The depth test changes.
pub open spec fn depth_changes(new: DrawParams, cur: DrawParams) -> Seq<StateChange> {
    if new.depth_test == cur.depth_test {
        seq![]
    } else {
        match new.depth_test {
            Some(c) => seq![StateChange::Enable(Capability::DepthTest), StateChange::DepthFunc(c)],
            None => seq![StateChange::Disable(Capability::DepthTest)],
        }
    }
}

/// The blending changes.
pub open spec fn blend_changes(new: DrawParams, cur: DrawParams) -> Seq<StateChange> {
    if new.blending == cur.blending {
        seq![]
    } else {
        match new.blending {
            Some(b) => seq![
                StateChange::Enable(Capability::Blend),
                StateChange::BlendEquation { color: b.color_equation, alpha: b.alpha_equation },
                StateChange::BlendFunc {
                    src_color: b.src_func_color,
                    dst_color: b.dst_func_color,
                    src_alpha: b.src_func_alpha,
                    dst_alpha: b.dst_func_alpha,
                },
                StateChange::BlendColor(b.constant_color),
            ],
            None => seq![StateChange::Disable(Capability::Blend)],
        }
    }
}

/// The mask changes. The back stencil mask is set when the new front mask
/// differs from the current back mask.
pub open spec fn mask_changes(new: DrawParams, cur: DrawParams) -> Seq<StateChange> {
    (if new.stencil_mask_front == cur.stencil_mask_front {
        seq![]
    } else {
        seq![StateChange::StencilMask { face: Face::Front, mask: new.stencil_mask_front }]
    }) + (if new.stencil_mask_front == cur.stencil_mask_back {
        seq![]
    } else {
        seq![StateChange::StencilMask { face: Face::Back, mask: new.stencil_mask_back }]
    }) + (if new.depth_mask == cur.depth_mask {
        seq![]
    } else {
        seq![StateChange::DepthMask(new.depth_mask)]
    }) + (if new.color_mask == cur.color_mask {
        seq![]
    } else {
        seq![StateChange::ColorMask(new.color_mask)]
    })
}

/// The changes that take the pipeline from the settings `cur` to the
/// settings `new` for a framebuffer of size `framebuffer_size`: each setting
/// that differs is applied, and the viewport is always set.
pub open spec fn delta_changes(new: DrawParams, cur: DrawParams, framebuffer_size: [u32; 2]) -> Seq<StateChange> {
    scissor_changes(new, cur) + seq![viewport_of(effective_viewport(new.viewport, framebuffer_size))]
        + cull_changes(new, cur) + stencil_test_changes(new, cur) + stencil_ops_changes(new, cur) + depth_changes(
        new,
        cur,
    ) + blend_changes(new, cur) + mask_changes(new, cur)
}

fn rect_eq(a: &Rect, b: &Rect) -> (r: bool)
    ensures
        r == (*a == *b),
{
    let r = a.lower_left_corner[0] == b.lower_left_corner[0] && a.lower_left_corner[1] == b.lower_left_corner[1]
        && a.size[0] == b.size[0] && a.size[1] == b.size[1];
    if r {
        assert(a.lower_left_corner =~= b.lower_left_corner);
        assert(a.size =~= b.size);
    }
    r
}

fn rect_opt_eq(a: &Option<Rect>, b: &Option<Rect>) -> (r: bool)
    ensures
        r == (*a == *b),
{
    match (a, b) {
        (Some(x), Some(y)) => rect_eq(x, y),
        (None, None) => true,
        _ => false,
    }
}

fn blending_opt_eq(a: &Option<Blending>, b: &Option<Blending>) -> (r: bool)
    ensures
        r == (*a == *b),
{
    match (a, b) {
        (Some(x), Some(y)) => {
            let r = x.color_equation == y.color_equation && x.alpha_equation == y.alpha_equation
                && x.src_func_color == y.src_func_color && x.dst_func_color == y.dst_func_color
                && x.src_func_alpha == y.src_func_alpha && x.dst_func_alpha == y.dst_func_alpha
                && x.constant_color[0] == y.constant_color[0] && x.constant_color[1] == y.constant_color[1]
                && x.constant_color[2] == y.constant_color[2] && x.constant_color[3] == y.constant_color[3];
            if r {
                assert(x.constant_color =~= y.constant_color);
            }
            r
        },
        (None, None) => true,
        _ => false,
    }
}

fn stencil_test_opt_eq(a: &Option<StencilTest>, b: &Option<StencilTest>) -> (r: bool)
    ensures
        r == (*a == *b),
{
    match (a, b) {
        (Some(x), Some(y)) => *x == *y,
        (None, None) => true,
        _ => false,
    }
}

fn stencil_ops_opt_eq(a: &Option<StencilOps>, b: &Option<StencilOps>) -> (r: bool)
    ensures
        r == (*a == *b),
{
    match (a, b) {
        (Some(x), Some(y)) => *x == *y,
        (None, None) => true,
        _ => false,
    }
}

fn cull_face_opt_eq(a: &Option<CullFace>, b: &Option<CullFace>) -> (r: bool)
    ensures
        r == (*a == *b),
{
    match (a, b) {
        (Some(x), Some(y)) => *x == *y,
        (None, None) => true,
        _ => false,
    }
}

fn comparison_opt_eq(a: &Option<Comparison>, b: &Option<Comparison>) -> (r: bool)
    ensures
        r == (*a == *b),
{
    match (a, b) {
        (Some(x), Some(y)) => *x == *y,
        (None, None) => true,
        _ => false,
    }
}

fn mask_eq(a: &[bool; 4], b: &[bool; 4]) -> (r: bool)
    ensures
        r == (*a == *b),
{
    let r = a[0] == b[0] && a[1] == b[1] && a[2] == b[2] && a[3] == b[3];
    if r {
        assert(*a =~= *b);
    }
    r
}

fn viewport_change(r: &Rect) -> (c: StateChange)
    requires
        rect_fits(*r),
    ensures
        c == viewport_of(*r),
{
    StateChange::Viewport {
        x: r.lower_left_corner[0] as i32,
        y: r.lower_left_corner[1] as i32,
        width: r.size[0] as i32,
        height: r.size[1] as i32,
    }
}

impl DrawParams {
    /// The default settings.
    pub fn new() -> (r: Self)
        ensures
            r == default_draw_params(),
    {
        DrawParams::default()
    }

    /// The pipeline changes that take the settings `current` to these, for
    /// a framebuffer of size `framebuffer_size`.
    pub fn set_delta(&self, current: &DrawParams, framebuffer_size: [u32; 2]) -> (r: Vec<StateChange>)
        requires
            self.scissor != current.scissor ==> (self.scissor matches Some(s) ==> rect_fits(s)),
            rect_fits(effective_viewport(self.viewport, framebuffer_size)),
        ensures
            r@ == delta_changes(*self, *current, framebuffer_size),
    {
        let mut r: Vec<StateChange> = Vec::new();
        push_scissor_changes(&mut r, self, current);
        let viewport = match self.viewport {
            Some(v) => v,
            None => Rect { lower_left_corner: [0, 0], size: framebuffer_size },
        };
        assert(viewport == effective_viewport(self.viewport, framebuffer_size)) by {
            if self.viewport is None {
                assert(viewport.lower_left_corner =~= [0u32, 0u32]);
            }
        }
        r.push(viewport_change(&viewport));
        push_cull_changes(&mut r, self, current);
        push_stencil_test_changes(&mut r, self, current);
        push_stencil_ops_changes(&mut r, self, current);
        push_depth_changes(&mut r, self, current);
        push_blend_changes(&mut r, self, current);
        push_mask_changes(&mut r, self, current);
        r
    }
}

fn push_scissor_changes(r: &mut Vec<StateChange>, new: &DrawParams, cur: &DrawParams)
    requires
        new.scissor != cur.scissor ==> (new.scissor matches Some(s) ==> rect_fits(s)),
    ensures
        final(r)@ == old(r)@ + scissor_changes(*new, *cur),
{
    if !rect_opt_eq(&new.scissor, &cur.scissor) {
        match new.scissor {
            Some(s) => {
                r.push(StateChange::Enable(Capability::ScissorTest));
                r.push(
                    StateChange::Scissor {
                        x: s.lower_left_corner[0] as i32,
                        y: s.lower_left_corner[1] as i32,
                        width: s.size[0] as i32,
                        height: s.size[1] as i32,
                    },
                );
            },
            None => {
                r.push(StateChange::Disable(Capability::ScissorTest));
            },
        }
    }
}

fn push_cull_changes(r: &mut Vec<StateChange>, new: &DrawParams, cur: &DrawParams)
    ensures
        final(r)@ == old(r)@ + cull_changes(*new, *cur),
{
    if !cull_face_opt_eq(&new.cull_face, &cur.cull_face) {
        match new.cull_face {
            Some(c) => {
                r.push(StateChange::Enable(Capability::CullFace));
                r.push(StateChange::CullFace(c));
            },
            None => {
                r.push(StateChange::Disable(Capability::CullFace));
            },
        }
    }
}

fn push_stencil_test_changes(r: &mut Vec<StateChange>, new: &DrawParams, cur: &DrawParams)
    ensures
        final(r)@ == old(r)@ + stencil_test_changes(*new, *cur),
{
    if !(stencil_test_opt_eq(&new.stencil_test_front, &cur.stencil_test_front) && stencil_test_opt_eq(
        &new.stencil_test_back,
        &cur.stencil_test_back,
    )) {
        if new.stencil_test_front.is_some() || new.stencil_test_back.is_some() {
            let front = match new.stencil_test_front {
                Some(t) => t,
                None => StencilTest::default(),
            };
            r.push(StateChange::Enable(Capability::StencilTest));
            r.push(
                StateChange::StencilFunc {
                    face: Face::Front,
                    comparison: front.comparison,
                    reference: front.reference,
                    mask: front.mask,
                },
            );
            r.push(
                StateChange::StencilFunc {
                    face: Face::Back,
                    comparison: front.comparison,
                    reference: front.reference,
                    mask: front.mask,
                },
            );
        } else {
            r.push(StateChange::Disable(Capability::StencilTest));
        }
    }
}

fn push_stencil_ops_changes(r: &mut Vec<StateChange>, new: &DrawParams, cur: &DrawParams)
    ensures
        final(r)@ == old(r)@ + stencil_ops_changes(*new, *cur),
{
    if !(stencil_ops_opt_eq(&new.stencil_ops_front, &cur.stencil_ops_front) && stencil_ops_opt_eq(
        &new.stencil_ops_back,
        &cur.stencil_ops_back,
    )) {
        let front = match new.stencil_ops_front {
            Some(o) => o,
            None => StencilOps::default(),
        };
        let back = match new.stencil_ops_back {
            Some(o) => o,
            None => StencilOps::default(),
        };
        r.push(StateChange::StencilOp { face: Face::Front, ops: front });
        r.push(StateChange::StencilOp { face: Face::Back, ops: back });
    }
}

fn push_depth_changes(r: &mut Vec<StateChange>, new: &DrawParams, cur: &DrawParams)
    ensures
        final(r)@ == old(r)@ + depth_changes(*new, *cur),
{
    if !comparison_opt_eq(&new.depth_test, &cur.depth_test) {
        match new.depth_test {
            Some(c) => {
                r.push(StateChange::Enable(Capability::DepthTest));
                r.push(StateChange::DepthFunc(c));
            },
            None => {
                r.push(StateChange::Disable(Capability::DepthTest));
            },
        }
    }
}

fn push_blend_changes(r: &mut Vec<StateChange>, new: &DrawParams, cur: &DrawParams)
    ensures
        final(r)@ == old(r)@ + blend_changes(*new, *cur),
{
    if !blending_opt_eq(&new.blending, &cur.blending) {
        match new.blending {
            Some(b) => {
                r.push(StateChange::Enable(Capability::Blend));
                r.push(StateChange::BlendEquation { color: b.color_equation, alpha: b.alpha_equation });
                r.push(
                    StateChange::BlendFunc {
                        src_color: b.src_func_color,
                        dst_color: b.dst_func_color,
                        src_alpha: b.src_func_alpha,
                        dst_alpha: b.dst_func_alpha,
                    },
                );
                r.push(StateChange::BlendColor(b.constant_color));
            },
            None => {
                r.push(StateChange::Disable(Capability::Blend));
            },
        }
    }
}

fn push_mask_changes(r: &mut Vec<StateChange>, new: &DrawParams, cur: &DrawParams)
    ensures
        final(r)@ == old(r)@ + mask_changes(*new, *cur),
{
    let ghost start = r@;
    if new.stencil_mask_front != cur.stencil_mask_front {
        r.push(StateChange::StencilMask { face: Face::Front, mask: new.stencil_mask_front });
    }
    let ghost a = r@;
    if new.stencil_mask_front != cur.stencil_mask_back {
        r.push(StateChange::StencilMask { face: Face::Back, mask: new.stencil_mask_back });
    }
    let ghost b = r@;
    if new.depth_mask != cur.depth_mask {
        r.push(StateChange::DepthMask(new.depth_mask));
    }
    let ghost c = r@;
    if !mask_eq(&new.color_mask, &cur.color_mask) {
        r.push(StateChange::ColorMask(new.color_mask));
    }
}

/// Applying settings that equal the current ones changes nothing but the
/// viewport, which is set on every draw, provided that the front and back
/// stencil masks agree.
pub proof fn lemma_delta_of_same(params: DrawParams, framebuffer_size: [u32; 2])
    requires
        params.stencil_mask_front == params.stencil_mask_back,
    ensures
        delta_changes(params, params, framebuffer_size) == seq![
            viewport_of(effective_viewport(params.viewport, framebuffer_size)),
        ],
{
    let d = delta_changes(params, params, framebuffer_size);
    assert(d =~= seq![viewport_of(effective_viewport(params.viewport, framebuffer_size))]);
}

impl Blending {
    /// Blending with equation `equation` for color and alpha.
    pub fn with_equation(self, equation: BlendEquation) -> (r: Self)
        ensures
            r == (Blending { color_equation: equation, alpha_equation: equation, ..self }),
    {
        self.with_color_equation(equation).with_alpha_equation(equation)
    }

    /// Blending with source factor `func` for color and alpha.
    pub fn with_src_func(self, func: BlendFunc) -> (r: Self)
        ensures
            r == (Blending { src_func_color: func, src_func_alpha: func, ..self }),
    {
        self.with_src_func_color(func).with_src_func_alpha(func)
    }

    /// Blending with destination factor `func` for color and alpha.
    pub fn with_dst_func(self, func: BlendFunc) -> (r: Self)
        ensures
            r == (Blending { dst_func_color: func, dst_func_alpha: func, ..self }),
    {
        self.with_dst_func_color(func).with_dst_func_alpha(func)
    }

    /// Blending with factor `func` for source and destination.
    pub fn with_func(self, func: BlendFunc) -> (r: Self)
        ensures
            r == (Blending {
                src_func_color: func,
                src_func_alpha: func,
                dst_func_color: func,
                dst_func_alpha: func,
                ..self
            }),
    {
        self.with_src_func(func).with_dst_func(func)
    }

    /// The default blending with equation `Add`.
    pub fn add() -> (r: Self)
        ensures
            r == (Blending { color_equation: BlendEquation::Add, alpha_equation: BlendEquation::Add, ..default_blending() }),
    {
        Self::default().with_equation(BlendEquation::Add)
    }

    /// The default blending with equation `Subtract`.
    pub fn subtract() -> (r: Self)
        ensures
            r == (Blending {
                color_equation: BlendEquation::Subtract,
                alpha_equation: BlendEquation::Subtract,
                ..default_blending()
            }),
    {
        Self::default().with_equation(BlendEquation::Subtract)
    }

    /// The default blending with equation `ReverseSubtract`.
    pub fn reverse_subtract() -> (r: Self)
        ensures
            r == (Blending {
                color_equation: BlendEquation::ReverseSubtract,
                alpha_equation: BlendEquation::ReverseSubtract,
                ..default_blending()
            }),
    {
        Self::default().with_equation(BlendEquation::ReverseSubtract)
    }

    /// The default blending with equation `Min`.
    pub fn min() -> (r: Self)
        ensures
            r == (Blending { color_equation: BlendEquation::Min, alpha_equation: BlendEquation::Min, ..default_blending() }),
    {
        Self::default().with_equation(BlendEquation::Min)
    }

    /// The default blending with equation `Max`.
    pub fn max() -> (r: Self)
        ensures
            r == (Blending { color_equation: BlendEquation::Max, alpha_equation: BlendEquation::Max, ..default_blending() }),
    {
        Self::default().with_equation(BlendEquation::Max)
    }

    /// Alpha blending: the source weighted by its alpha over the
    /// destination weighted by one minus that alpha.
    pub fn alpha() -> (r: Self)
        ensures
            r == (Blending {
                src_func_color: BlendFunc::SrcAlpha,
                src_func_alpha: BlendFunc::SrcAlpha,
                dst_func_color: BlendFunc::OneMinusSrcAlpha,
                dst_func_alpha: BlendFunc::OneMinusSrcAlpha,
                ..default_blending()
            }),
    {
        Self::default().with_src_func(BlendFunc::SrcAlpha).with_dst_func(BlendFunc::OneMinusSrcAlpha)
    }

    /// Sets the color equation.
    pub fn with_color_equation(self, color_equation: BlendEquation) -> (r: Self)
        ensures
            r == (Blending { color_equation: color_equation, ..self }),
    {
        Blending { color_equation: color_equation, ..self }
    }

    /// Sets the alpha equation.
    pub fn with_alpha_equation(self, alpha_equation: BlendEquation) -> (r: Self)
        ensures
            r == (Blending { alpha_equation: alpha_equation, ..self }),
    {
        Blending { alpha_equation: alpha_equation, ..self }
    }

    /// Sets the source factor for color.
    pub fn with_src_func_color(self, src_func_color: BlendFunc) -> (r: Self)
        ensures
            r == (Blending { src_func_color: src_func_color, ..self }),
    {
        Blending { src_func_color: src_func_color, ..self }
    }

    /// Sets the source factor for alpha.
    pub fn with_src_func_alpha(self, src_func_alpha: BlendFunc) -> (r: Self)
        ensures
            r == (Blending { src_func_alpha: src_func_alpha, ..self }),
    {
        Blending { src_func_alpha: src_func_alpha, ..self }
    }

    /// Sets the destination factor for color.
    pub fn with_dst_func_color(self, dst_func_color: BlendFunc) -> (r: Self)
        ensures
            r == (Blending { dst_func_color: dst_func_color, ..self }),
    {
        Blending { dst_func_color: dst_func_color, ..self }
    }

    /// Sets the destination factor for alpha.
    pub fn with_dst_func_alpha(self, dst_func_alpha: BlendFunc) -> (r: Self)
        ensures
            r == (Blending { dst_func_alpha: dst_func_alpha, ..self }),
    {
        Blending { dst_func_alpha: dst_func_alpha, ..self }
    }

    /// Sets the constant color, as the bit patterns of its components.
    pub fn with_constant_color(self, constant_color: [u32; 4]) -> (r: Self)
        ensures
            r == (Blending { constant_color: constant_color, ..self }),
    {
        Blending { constant_color: constant_color, ..self }
    }

}

impl DrawParams {
    /// Sets the front stencil mask.
    pub fn with_stencil_mask_front(self, stencil_mask_front: u32) -> (r: Self)
        ensures
            r == (DrawParams { stencil_mask_front: stencil_mask_front, ..self }),
    {
        DrawParams { stencil_mask_front: stencil_mask_front, ..self }
    }

    /// Sets the back stencil mask.
    pub fn with_stencil_mask_back(self, stencil_mask_back: u32) -> (r: Self)
        ensures
            r == (DrawParams { stencil_mask_back: stencil_mask_back, ..self }),
    {
        DrawParams { stencil_mask_back: stencil_mask_back, ..self }
    }

    /// Sets the color mask.
    pub fn with_color_mask(self, color_mask: [bool; 4]) -> (r: Self)
        ensures
            r == (DrawParams { color_mask: color_mask, ..self }),
    {
        DrawParams { color_mask: color_mask, ..self }
    }

    /// Sets the depth mask.
    pub fn with_depth_mask(self, depth_mask: bool) -> (r: Self)
        ensures
            r == (DrawParams { depth_mask: depth_mask, ..self }),
    {
        DrawParams { depth_mask: depth_mask, ..self }
    }

    /// Sets the viewport.
    pub fn with_viewport(self, value: Rect) -> (r: Self)
        ensures
            r == (DrawParams { viewport: Some(value), ..self }),
    {
        DrawParams { viewport: Some(value), ..self }
    }

    /// Culls faces `cull_face`.
    pub fn with_cull_face(self, value: CullFace) -> (r: Self)
        ensures
            r == (DrawParams { cull_face: Some(value), ..self }),
    {
        DrawParams { cull_face: Some(value), ..self }
    }

    /// Sets the scissor box.
    pub fn with_scissor(self, value: Rect) -> (r: Self)
        ensures
            r == (DrawParams { scissor: Some(value), ..self }),
    {
        DrawParams { scissor: Some(value), ..self }
    }

    /// Sets the front stencil test.
    pub fn with_stencil_test_front(self, value: StencilTest) -> (r: Self)
        ensures
            r == (DrawParams { stencil_test_front: Some(value), ..self }),
    {
        DrawParams { stencil_test_front: Some(value), ..self }
    }

    /// Sets the back stencil test.
    pub fn with_stencil_test_back(self, value: StencilTest) -> (r: Self)
        ensures
            r == (DrawParams { stencil_test_back: Some(value), ..self }),
    {
        DrawParams { stencil_test_back: Some(value), ..self }
    }

    /// Sets the front stencil operations.
    pub fn with_stencil_ops_front(self, value: StencilOps) -> (r: Self)
        ensures
            r == (DrawParams { stencil_ops_front: Some(value), ..self }),
    {
        DrawParams { stencil_ops_front: Some(value), ..self }
    }

    /// Sets the back stencil operations.
    pub fn with_stencil_ops_back(self, value: StencilOps) -> (r: Self)
        ensures
            r == (DrawParams { stencil_ops_back: Some(value), ..self }),
    {
        DrawParams { stencil_ops_back: Some(value), ..self }
    }

    /// Sets the depth test.
    pub fn with_depth_test(self, value: Comparison) -> (r: Self)
        ensures
            r == (DrawParams { depth_test: Some(value), ..self }),
    {
        DrawParams { depth_test: Some(value), ..self }
    }

    /// Sets the blending.
    pub fn with_blending(self, value: Blending) -> (r: Self)
        ensures
            r == (DrawParams { blending: Some(value), ..self }),
    {
        DrawParams { blending: Some(value), ..self }
    }

    /// Sets the stencil test of both faces.
    pub fn with_stencil_test(self, test: StencilTest) -> (r: Self)
        ensures
            r == (DrawParams { stencil_test_front: Some(test), stencil_test_back: Some(test), ..self }),
    {
        self.with_stencil_test_front(test).with_stencil_test_back(test)
    }

    /// Sets the stencil operations of both faces.
    pub fn with_stencil_ops(self, ops: StencilOps) -> (r: Self)
        ensures
            r == (DrawParams { stencil_ops_front: Some(ops), stencil_ops_back: Some(ops), ..self }),
    {
        self.with_stencil_ops_front(ops).with_stencil_ops_back(ops)
    }

    /// Sets the stencil mask of both faces.
    pub fn with_stencil_mask(self, mask: u32) -> (r: Self)
        ensures
            r == (DrawParams { stencil_mask_front: mask, stencil_mask_back: mask, ..self }),
    {
        self.with_stencil_mask_front(mask).with_stencil_mask_back(mask)
    }
}


/// One call of clearing a framebuffer. Values are as the calls take them;
/// the depth and the color are the bit patterns of their single-precision
/// values.
#[derive(Debug, Copy, Clone, PartialEq, Eq)]
pub enum ClearCommand {
    ClearStencil(i32),
    ClearDepth(u32),
    ClearColor([u32; 4]),
    /// Clear the buffers whose flag is set.
    Clear { stencil: bool, depth: bool, color: bool },
}

/// The calls that clear what `params` asks to clear: the clear value of
/// each, then one clear of all of them, if there is any.
pub open spec fn clear_cmds(params: ClearParams) -> Seq<ClearCommand> {
    (match params.stencil {
        Some(c) => seq![ClearCommand::ClearStencil(c as i32)],
        None => seq![],
    }) + (match params.depth {
        Some(d) => seq![ClearCommand::ClearDepth(d)],
        None => seq![],
    }) + (match params.color {
        Some(c) => seq![ClearCommand::ClearColor(c)],
        None => seq![],
    }) + if params.stencil is Some || params.depth is Some || params.color is Some {
        seq![
            ClearCommand::Clear {
                stencil: params.stencil is Some,
                depth: params.depth is Some,
                color: params.color is Some,
            },
        ]
    } else {
        seq![]
    }
}

/// The calls that clear a framebuffer as `params` asks.
pub fn clear_commands(params: &ClearParams) -> (r: Vec<ClearCommand>)
    ensures
        r@ == clear_cmds(*params),
{
    let mut r: Vec<ClearCommand> = Vec::new();
    let mut stencil = false;
    let mut depth = false;
    let mut color = false;
    match params.stencil {
        Some(c) => {
            r.push(ClearCommand::ClearStencil(c as i32));
            stencil = true;
        },
        None => {},
    }
    let ghost a = r@;
    match params.depth {
        Some(d) => {
            r.push(ClearCommand::ClearDepth(d));
            depth = true;
        },
        None => {},
    }
    let ghost b = r@;
    match params.color {
        Some(c) => {
            r.push(ClearCommand::ClearColor(c));
            color = true;
        },
        None => {},
    }
    let ghost c = r@;
    if stencil || depth || color {
        r.push(ClearCommand::Clear { stencil, depth, color });
    }
    r
}

} // verus!
