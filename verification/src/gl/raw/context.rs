use vstd::prelude::*;

use super::error::FramebufferError;
use super::framebuffer::{Attachment, Framebuffer};
use super::small_vec::attachment_items;

verus! {

/// Limits of the OpenGL implementation.
#[derive(Debug, Copy, Clone, PartialEq, Eq)]
pub struct Caps {
    pub max_texture_size: u32,
    pub max_color_attachments: u32,
    pub max_draw_buffers: u32,
    pub disjoint_timer_query_webgl2: bool,
}

/// The attachment point of a depth attachment.
#[derive(Debug, Copy, Clone, PartialEq, Eq, Structural)]
pub enum DepthLocation {
    Depth,
    DepthStencil,
}

/// A change of the OpenGL bindings. Object ids are those of the OpenGL
/// objects; `None` unbinds.
#[derive(Debug, Copy, Clone, PartialEq, Eq, Structural)]
pub enum BindCommand {
    /// Use a program.
    UseProgram(Option<u32>),
    /// Bind the framebuffer object for drawing (`true`) or the default
    /// framebuffer (`false`).
    BindDrawFramebuffer(bool),
    /// Attach a texture level at color attachment point `index`.
    AttachColor { index: usize, texture: Option<u32>, level: i32 },
    /// Attach a texture level at a depth attachment point.
    AttachDepth { location: DepthLocation, texture: Option<u32>, level: i32 },
    /// Draw into the first `count` color attachments.
    DrawBuffers(usize),
    /// Bind a two-dimensional texture to texture unit `unit`.
    BindTexture2d { unit: usize, texture: Option<u32> },
    /// Bind a uniform buffer to binding point `location`.
    BindUniformBuffer { location: u32, buffer: Option<u32> },
}

/// What is bound in an OpenGL context.
#[derive(Debug, Clone, PartialEq, Eq)]
pub struct Bindings {
    pub bound_program_id: Option<u32>,
    pub is_draw_fbo_bound: bool,
    pub bound_color_attachment_ids: Vec<u32>,
    pub bound_depth_attachment_id: Option<(DepthLocation, u32)>,
    pub bound_uniform_buffer_ids: Vec<Option<u32>>,
    pub bound_texture_2d_ids: Vec<Option<u32>>,
}

/// The largest `k` with `2^k <= n`, and 0 for 0.
pub open spec fn floor_log2(n: nat) -> nat
    decreases n,
{
    if n <= 1 {
        0
    } else {
        1 + floor_log2(n / 2)
    }
}

/// Two to the power `k`.
pub open spec fn pow2(k: nat) -> nat
    decreases k,
{
    if k == 0 {
        1
    } else {
        2 * pow2((k - 1) as nat)
    }
}

proof fn lemma_floor_log2_below(n: nat, k: nat)
    requires
        k >= 1,
        n < pow2(k),
    ensures
        floor_log2(n) < k,
    decreases k,
{
    assert(pow2(0) == 1);
    assert(pow2(k) == 2 * pow2((k - 1) as nat));
    if n > 1 && k > 1 {
        lemma_floor_log2_below(n / 2, (k - 1) as nat);
    }
}

proof fn lemma_pow2_32()
    ensures
        pow2(32) == 0x1_0000_0000,
{
    reveal_with_fuel(pow2, 33);
}

/// The highest mipmap level of a texture of the largest allowed size.
pub fn max_level(max_texture_size: u32) -> (r: u32)
    ensures
        r == floor_log2(max_texture_size as nat),
        r < 32,
{
    proof {
        lemma_pow2_32();
        lemma_floor_log2_below(max_texture_size as nat, 32);
    }
    let mut n = max_texture_size;
    let mut r: u32 = 0;
    while n > 1
        invariant
            r + floor_log2(n as nat) == floor_log2(max_texture_size as nat),
            floor_log2(max_texture_size as nat) < 32,
        decreases n,
    {
        n = n / 2;
        r = r + 1;
    }
    r
}

/// The color attachment `i` is bound already.
pub open spec fn color_bound(bound: Seq<u32>, atts: Seq<Attachment>, i: int) -> bool {
    i < bound.len() && bound[i] == atts[i].texture().id
}

/// The attachment commands for the first `k` color attachments that are
/// not bound already.
pub open spec fn color_attach_cmds(bound: Seq<u32>, atts: Seq<Attachment>, k: int) -> Seq<BindCommand>
    decreases k,
{
    if k <= 0 {
        seq![]
    } else {
        color_attach_cmds(bound, atts, k - 1) + if color_bound(bound, atts, k - 1) {
            seq![]
        } else {
            seq![
                BindCommand::AttachColor {
                    index: (k - 1) as usize,
                    texture: Some(atts[k - 1].texture().id),
                    level: atts[k - 1].level() as i32,
                },
            ]
        }
    }
}

/// The commands that detach the color attachment points `from` up to `to`.
pub open spec fn detach_cmds(from: int, to: int) -> Seq<BindCommand>
    decreases to - from,
{
    if from >= to {
        seq![]
    } else {
        seq![BindCommand::AttachColor { index: from as usize, texture: None, level: 0 }] + detach_cmds(from + 1, to)
    }
}

/// Color attachment `i` needs attaching and its level is too large.
pub open spec fn level_fails(bound: Seq<u32>, atts: Seq<Attachment>, max: nat, i: int) -> bool {
    !color_bound(bound, atts, i) && atts[i].level() > max
}

/// The first index below `k` whose attachment needs attaching and has too
/// large a level.
/// Every attachment that binding `atts` reaches and attaches is color
/// renderable: when the count is within the limits, each attachment not
/// bound already, up to and including the first whose level is too large.
pub open spec fn renderable_where_reached(caps: Caps, bound: Seq<u32>, atts: Seq<Attachment>) -> bool {
    let n = atts.len();
    let maxl = floor_log2(caps.max_texture_size as nat);
    let limit = match first_level_failure(bound, atts, maxl, n as int) {
        Some(k) => k + 1,
        None => n as int,
    };
    n <= caps.max_color_attachments && n <= caps.max_draw_buffers ==> forall|i: int|
        0 <= i < limit && !color_bound(bound, atts, i)
            ==> (#[trigger] atts[i]).texture().internal_format.spec_is_color_renderable()
}

pub open spec fn first_level_failure(bound: Seq<u32>, atts: Seq<Attachment>, max: nat, k: int) -> Option<int>
    decreases k,
{
    if k <= 0 {
        None
    } else {
        match first_level_failure(bound, atts, max, k - 1) {
            Some(i) => Some(i),
            None => if level_fails(bound, atts, max, k - 1) {
                Some(k - 1)
            } else {
                None
            },
        }
    }
}

proof fn lemma_first_failure_stable(bound: Seq<u32>, atts: Seq<Attachment>, max: nat, k1: int, k2: int)
    requires
        k1 <= k2,
        first_level_failure(bound, atts, max, k1) is Some,
    ensures
        first_level_failure(bound, atts, max, k2) == first_level_failure(bound, atts, max, k1),
    decreases k2 - k1,
{
    if k1 < k2 {
        lemma_first_failure_stable(bound, atts, max, k1, k2 - 1);
    }
}

/// The ids of the attached textures.
pub open spec fn attachment_ids(atts: Seq<Attachment>) -> Seq<u32> {
    atts.map_values(|a: Attachment| a.texture().id)
}

/// The depth attachment point of a texture format: depth and stencil for a
/// format that can be both, else depth.
pub open spec fn depth_location_of(a: Attachment) -> DepthLocation {
    let f = a.texture().internal_format;
    if f is DepthF32 && f.spec_is_stencil_renderable() {
        DepthLocation::DepthStencil
    } else {
        DepthLocation::Depth
    }
}

/// The command that binds the framebuffer object for drawing, unless it is
/// bound.
pub open spec fn fbo_cmd(bound: bool) -> Seq<BindCommand> {
    if bound {
        seq![]
    } else {
        seq![BindCommand::BindDrawFramebuffer(true)]
    }
}

/// `s` extended with `None` to at least length `n`.
pub open spec fn padded(s: Seq<Option<u32>>, n: nat) -> Seq<Option<u32>> {
    if s.len() >= n {
        s
    } else {
        s + Seq::new((n - s.len()) as nat, |i: int| None)
    }
}

/// Binding `id` to slot `slot` of the slots `bound`: the slots afterwards,
/// and whether the binding changed.
pub open spec fn slot_step(bound: Seq<Option<u32>>, slot: nat, id: Option<u32>) -> (Seq<Option<u32>>, bool) {
    let p = padded(bound, slot + 1);
    if p[slot as int] == id {
        (p, false)
    } else {
        (p.update(slot as int, id), true)
    }
}

/// The commands that unbind texture `id` from the units among the first
/// `k` of `units` that hold it.
pub open spec fn unit_unbind_cmds(units: Seq<Option<u32>>, id: u32, k: int) -> Seq<BindCommand>
    decreases k,
{
    if k <= 0 {
        seq![]
    } else {
        unit_unbind_cmds(units, id, k - 1) + if units[k - 1] == Some(id) {
            seq![BindCommand::BindTexture2d { unit: (k - 1) as usize, texture: None }]
        } else {
            seq![]
        }
    }
}

/// The commands that unbind buffer `id` from the binding points among the
/// first `k` of `points` that hold it.
pub open spec fn buffer_unbind_cmds(points: Seq<Option<u32>>, id: u32, k: int) -> Seq<BindCommand>
    decreases k,
{
    if k <= 0 {
        seq![]
    } else {
        buffer_unbind_cmds(points, id, k - 1) + if points[k - 1] == Some(id) {
            seq![BindCommand::BindUniformBuffer { location: (k - 1) as u32, buffer: None }]
        } else {
            seq![]
        }
    }
}

/// The slots with every occurrence of `id` cleared.
pub open spec fn cleared(s: Seq<Option<u32>>, id: u32) -> Seq<Option<u32>> {
    s.map_values(|x: Option<u32>| if x == Some(id) { None } else { x })
}

/// What attaching the color attachments `atts` gives where `bound` are
/// attached: the commands, and the error, if it fails.
pub open spec fn color_attach_outcome(caps: Caps, bound: Seq<u32>, atts: Seq<Attachment>) -> (
    Seq<BindCommand>,
    Option<FramebufferError>,
) {
    let n = atts.len();
    let maxl = floor_log2(caps.max_texture_size as nat);
    if n > caps.max_color_attachments {
        (seq![], Some(FramebufferError::TooManyColorAttachments { requested: n as u32, max: caps.max_color_attachments }))
    } else if n > caps.max_draw_buffers {
        (seq![], Some(FramebufferError::TooManyDrawBuffers { requested: n as u32, max: caps.max_draw_buffers }))
    } else if first_level_failure(bound, atts, maxl, n as int) is Some {
        let k = first_level_failure(bound, atts, maxl, n as int)->0;
        (
            color_attach_cmds(bound, atts, k),
            Some(FramebufferError::LevelTooLarge { requested: atts[k].level(), max: maxl as u32 }),
        )
    } else {
        (
            color_attach_cmds(bound, atts, n as int) + detach_cmds(n as int, bound.len() as int) + if bound.len() != n {
                seq![BindCommand::DrawBuffers(n as usize)]
            } else {
                seq![]
            },
            None,
        )
    }
}

/// The commands that attach `attachment` as the depth attachment where
/// `bound` is attached: none if it is attached already, else detaching
/// what is attached at another point, then attaching it.
pub open spec fn depth_attach_cmds(bound: Option<(DepthLocation, u32)>, attachment: Option<Attachment>) -> Seq<
    BindCommand,
> {
    let new_id = match attachment {
        Some(a) => Some(a.texture().id),
        None => None,
    };
    let bound_id = match bound {
        Some((_, b)) => Some(b),
        None => None,
    };
    if new_id == bound_id {
        seq![]
    } else {
        let location = match attachment {
            Some(a) => Some(depth_location_of(a)),
            None => None,
        };
        (match bound {
            Some((l, _)) => if Some(l) != location {
                seq![BindCommand::AttachDepth { location: l, texture: None, level: 0 }]
            } else {
                seq![]
            },
            None => seq![],
        }) + match attachment {
            Some(a) => seq![
                BindCommand::AttachDepth {
                    location: depth_location_of(a),
                    texture: Some(a.texture().id),
                    level: a.level() as i32,
                },
            ],
            None => seq![],
        }
    }
}

/// The depth attachment after attaching `attachment` where `bound` is
/// attached.
pub open spec fn depth_after(bound: Option<(DepthLocation, u32)>, attachment: Option<Attachment>) -> Option<
    (DepthLocation, u32),
> {
    let new_id = match attachment {
        Some(a) => Some(a.texture().id),
        None => None,
    };
    let bound_id = match bound {
        Some((_, b)) => Some(b),
        None => None,
    };
    if new_id == bound_id {
        bound
    } else {
        match attachment {
            Some(a) => Some((depth_location_of(a), a.texture().id)),
            None => None,
        }
    }
}

/// The commands that detach texture `id` where it is the depth attachment
/// `depth`, binding the framebuffer object first unless `draw_fbo` says it
/// is bound.
pub open spec fn depth_unbind_cmds(depth: Option<(DepthLocation, u32)>, draw_fbo: bool, id: u32) -> Seq<BindCommand> {
    match depth {
        Some((l, x)) => if x == id {
            fbo_cmd(draw_fbo) + seq![BindCommand::AttachDepth { location: l, texture: None, level: 0 }]
        } else {
            seq![]
        },
        None => seq![],
    }
}

/// The commands that detach all color attachments `bound` where texture
/// `id` is one of them, binding the framebuffer object first unless `fbo`
/// says it is bound.
pub open spec fn color_unbind_cmds(bound: Seq<u32>, id: u32, fbo: bool) -> Seq<BindCommand> {
    if bound.contains(id) {
        fbo_cmd(fbo) + detach_cmds(0, bound.len() as int) + if bound.len() != 0 {
            seq![BindCommand::DrawBuffers(0)]
        } else {
            seq![]
        }
    } else {
        seq![]
    }
}

impl Bindings {
    /// Nothing bound.
    pub fn new() -> (r: Self)
        ensures
            r.bound_program_id is None,
            !r.is_draw_fbo_bound,
            r.bound_color_attachment_ids@ == Seq::<u32>::empty(),
            r.bound_depth_attachment_id is None,
            r.bound_uniform_buffer_ids@ == Seq::<Option<u32>>::empty(),
            r.bound_texture_2d_ids@ == Seq::<Option<u32>>::empty(),
    {
        Bindings {
            bound_program_id: None,
            is_draw_fbo_bound: false,
            bound_color_attachment_ids: Vec::new(),
            bound_depth_attachment_id: None,
            bound_uniform_buffer_ids: Vec::new(),
            bound_texture_2d_ids: Vec::new(),
        }
    }

    /// Uses program `id`, unless it is in use.
    pub fn bind_program(&mut self, id: Option<u32>, cmds: &mut Vec<BindCommand>)
        ensures
            final(self).bound_program_id == id,
            final(cmds)@ == old(cmds)@ + if old(self).bound_program_id == id {
                seq![]
            } else {
                seq![BindCommand::UseProgram(id)]
            },
            final(self).is_draw_fbo_bound == old(self).is_draw_fbo_bound,
            final(self).bound_color_attachment_ids == old(self).bound_color_attachment_ids,
            final(self).bound_depth_attachment_id == old(self).bound_depth_attachment_id,
            final(self).bound_uniform_buffer_ids == old(self).bound_uniform_buffer_ids,
            final(self).bound_texture_2d_ids == old(self).bound_texture_2d_ids,
    {
        if id == self.bound_program_id {
            return;
        }
        cmds.push(BindCommand::UseProgram(id));
        self.bound_program_id = id;
    }

    /// Stops using program `id`, if it is in use.
    pub fn unbind_program_if_bound(&mut self, id: u32, cmds: &mut Vec<BindCommand>)
        ensures
            old(self).bound_program_id == Some(id) ==> final(self).bound_program_id is None && final(cmds)@
                == old(cmds)@.push(BindCommand::UseProgram(None)),
            old(self).bound_program_id != Some(id) ==> final(self).bound_program_id == old(self).bound_program_id
                && final(cmds)@ == old(cmds)@,
            final(self).is_draw_fbo_bound == old(self).is_draw_fbo_bound,
            final(self).bound_color_attachment_ids == old(self).bound_color_attachment_ids,
            final(self).bound_depth_attachment_id == old(self).bound_depth_attachment_id,
            final(self).bound_uniform_buffer_ids == old(self).bound_uniform_buffer_ids,
            final(self).bound_texture_2d_ids == old(self).bound_texture_2d_ids,
    {
        if Some(id) == self.bound_program_id {
            self.bind_program(None, cmds);
        }
    }

    /// Binds the framebuffer object for drawing, or the default
    /// framebuffer, unless it is bound.
    pub fn bind_draw_fbo(&mut self, yes: bool, cmds: &mut Vec<BindCommand>)
        ensures
            final(self).is_draw_fbo_bound == yes,
            final(cmds)@ == old(cmds)@ + if old(self).is_draw_fbo_bound == yes {
                seq![]
            } else {
                seq![BindCommand::BindDrawFramebuffer(yes)]
            },
            final(self).bound_program_id == old(self).bound_program_id,
            final(self).bound_color_attachment_ids == old(self).bound_color_attachment_ids,
            final(self).bound_depth_attachment_id == old(self).bound_depth_attachment_id,
            final(self).bound_uniform_buffer_ids == old(self).bound_uniform_buffer_ids,
            final(self).bound_texture_2d_ids == old(self).bound_texture_2d_ids,
    {
        if yes != self.is_draw_fbo_bound {
            cmds.push(BindCommand::BindDrawFramebuffer(yes));
            self.is_draw_fbo_bound = yes;
        }
    }

    /// Attaches `attachments` as the color attachments of the framebuffer
    /// object, skipping those that are attached already, detaching the rest
    /// and drawing into all of them. Fails, before anything is bound, when
    /// there are more attachments than the implementation allows, and at the
    /// first attachment to attach whose level exceeds the highest level.
    #[verifier::rlimit(40)]
    #[verifier::loop_isolation(false)]
    pub fn bind_color_attachments(
        &mut self,
        caps: &Caps,
        attachments: &[Attachment],
        cmds: &mut Vec<BindCommand>,
    ) -> (r: Result<(), FramebufferError>)
        requires
            attachments.len() <= u32::MAX,
            renderable_where_reached(*caps, old(self).bound_color_attachment_ids@, attachments@),
        ensures
            final(self).bound_program_id == old(self).bound_program_id,
            final(self).is_draw_fbo_bound == old(self).is_draw_fbo_bound,
            final(self).bound_depth_attachment_id == old(self).bound_depth_attachment_id,
            final(self).bound_uniform_buffer_ids == old(self).bound_uniform_buffer_ids,
            final(self).bound_texture_2d_ids == old(self).bound_texture_2d_ids,
            ({
                let n = attachments.len();
                let bound = old(self).bound_color_attachment_ids@;
                let maxl = floor_log2(caps.max_texture_size as nat);
                if n > caps.max_color_attachments {
                    &&& r == Err::<(), FramebufferError>(
                        FramebufferError::TooManyColorAttachments { requested: n as u32, max: caps.max_color_attachments },
                    )
                    &&& final(cmds)@ == old(cmds)@
                    &&& final(self).bound_color_attachment_ids@ == bound
                } else if n > caps.max_draw_buffers {
                    &&& r == Err::<(), FramebufferError>(
                        FramebufferError::TooManyDrawBuffers { requested: n as u32, max: caps.max_draw_buffers },
                    )
                    &&& final(cmds)@ == old(cmds)@
                    &&& final(self).bound_color_attachment_ids@ == bound
                } else if first_level_failure(bound, attachments@, maxl, n as int) is Some {
                    let k = first_level_failure(bound, attachments@, maxl, n as int)->0;
                    &&& r == Err::<(), FramebufferError>(
                        FramebufferError::LevelTooLarge { requested: attachments@[k].level(), max: maxl as u32 },
                    )
                    &&& final(cmds)@ == old(cmds)@ + color_attach_cmds(bound, attachments@, k)
                    &&& final(self).bound_color_attachment_ids@ == bound
                } else {
                    &&& r is Ok
                    &&& final(cmds)@ == old(cmds)@ + color_attach_cmds(bound, attachments@, n as int) + detach_cmds(
                        n as int,
                        bound.len() as int,
                    ) + if bound.len() != n {
                        seq![BindCommand::DrawBuffers(n)]
                    } else {
                        seq![]
                    }
                    &&& final(self).bound_color_attachment_ids@ == attachment_ids(attachments@)
                }
            }),
            final(cmds)@ == old(cmds)@ + color_attach_outcome(
                *caps,
                old(self).bound_color_attachment_ids@,
                attachments@,
            ).0,
            match color_attach_outcome(*caps, old(self).bound_color_attachment_ids@, attachments@).1 {
                Some(e) => r == Err::<(), FramebufferError>(e),
                None => r is Ok,
            },
    {
        let n = attachments.len();
        let num_attachments = n as u32;
        assert(num_attachments == n);
        if num_attachments > caps.max_color_attachments {
            return Err(
                FramebufferError::TooManyColorAttachments {
                    requested: num_attachments,
                    max: caps.max_color_attachments,
                },
            );
        }
        if num_attachments > caps.max_draw_buffers {
            return Err(FramebufferError::TooManyDrawBuffers { requested: num_attachments, max: caps.max_draw_buffers });
        }
        let ghost bound = self.bound_color_attachment_ids@;
        let ghost start = cmds@;
        let maxl = max_level(caps.max_texture_size);
        let mut idx: usize = 0;
        while idx < n
            invariant
                idx <= n,
                n == attachments.len(),
                bound == self.bound_color_attachment_ids@,
                maxl == floor_log2(caps.max_texture_size as nat),
                maxl < 32,
                first_level_failure(bound, attachments@, maxl as nat, idx as int) is None,
                cmds@ == start + color_attach_cmds(bound, attachments@, idx as int),
            decreases n - idx,
        {
            let attachment = &attachments[idx];
            let id = attachment.id();
            let already = idx < self.bound_color_attachment_ids.len() && self.bound_color_attachment_ids[idx] == id;
            assert(already == color_bound(bound, attachments@, idx as int));
            if !already {
                match attachment {
                    Attachment::Texture2d { texture, level } => {
                        if *level > maxl {
                            proof {
                                assert(first_level_failure(bound, attachments@, maxl as nat, idx + 1) == Some(idx as int));
                                lemma_first_failure_stable(bound, attachments@, maxl as nat, idx + 1, n as int);
                            }
                            return Err(FramebufferError::LevelTooLarge { requested: *level, max: maxl });
                        }
                        cmds.push(BindCommand::AttachColor { index: idx, texture: Some(texture.id), level: *level as i32 });
                    },
                }
            }
            idx = idx + 1;
        }
        let ghost after_attach = cmds@;
        let old_len = self.bound_color_attachment_ids.len();
        let mut j: usize = n;
        while j < old_len
            invariant
                n <= j <= old_len || old_len < n,
                old_len < n ==> j == n,
                j >= n,
                cmds@ == after_attach + detach_cmds(n as int, j as int),
            decreases old_len - j,
        {
            proof {
                lemma_detach_cmds_push(n as int, j as int);
            }
            cmds.push(BindCommand::AttachColor { index: j, texture: None, level: 0 });
            j = j + 1;
        }
        proof {
            if old_len < n {
                assert(detach_cmds(n as int, old_len as int) == Seq::<BindCommand>::empty());
                assert(detach_cmds(n as int, j as int) == Seq::<BindCommand>::empty());
            }
        }
        assert(cmds@ == start + color_attach_cmds(bound, attachments@, n as int) + detach_cmds(n as int, old_len as int));
        let ghost before_draw = cmds@;
        if old_len != n {
            cmds.push(BindCommand::DrawBuffers(n));
        }
        assert(cmds@ == before_draw + if bound.len() != n {
            seq![BindCommand::DrawBuffers(n)]
        } else {
            seq![]
        });
        let mut ids: Vec<u32> = Vec::new();
        let mut k: usize = 0;
        while k < n
            invariant
                k <= n,
                n == attachments.len(),
                ids@ == attachment_ids(attachments@.take(k as int)),
            decreases n - k,
        {
            ids.push(attachments[k].id());
            proof {
                assert(attachment_ids(attachments@.take(k + 1)) == attachment_ids(attachments@.take(k as int)).push(
                    attachments@[k as int].texture().id,
                ));
            }
            k = k + 1;
        }
        assert(attachments@.take(n as int) == attachments@);
        self.bound_color_attachment_ids = ids;
        Ok(())
    }

    /// Attaches `attachment` as the depth attachment of the framebuffer
    /// object, detaching what was attached, unless it is attached already.
    pub fn bind_depth_attachment(&mut self, attachment: Option<&Attachment>, cmds: &mut Vec<BindCommand>)
        requires
            attachment matches Some(a) ==> (a.level() <= i32::MAX && (old(self).bound_depth_attachment_id
                matches Some((_, b)) && b == a.texture().id || a.texture().internal_format is DepthF32)),
        ensures
            final(self).bound_program_id == old(self).bound_program_id,
            final(self).is_draw_fbo_bound == old(self).is_draw_fbo_bound,
            final(self).bound_color_attachment_ids == old(self).bound_color_attachment_ids,
            final(self).bound_uniform_buffer_ids == old(self).bound_uniform_buffer_ids,
            final(self).bound_texture_2d_ids == old(self).bound_texture_2d_ids,
            final(cmds)@ == old(cmds)@ + depth_attach_cmds(
                old(self).bound_depth_attachment_id,
                match attachment {
                    Some(a) => Some(*a),
                    None => None,
                },
            ),
            final(self).bound_depth_attachment_id == depth_after(
                old(self).bound_depth_attachment_id,
                match attachment {
                    Some(a) => Some(*a),
                    None => None,
                },
            ),
    {
        let new_id = match attachment {
            Some(a) => Some(a.id()),
            None => None,
        };
        let bound_id = match self.bound_depth_attachment_id {
            Some((_, b)) => Some(b),
            None => None,
        };
        if new_id == bound_id {
            return;
        }
        let location = match attachment {
            Some(a) => {
                let format = a.internal_format();
                if format.is_depth_renderable() && format.is_stencil_renderable() {
                    Some(DepthLocation::DepthStencil)
                } else {
                    Some(DepthLocation::Depth)
                }
            },
            None => None,
        };
        match self.bound_depth_attachment_id {
            Some((l, _)) => {
                if Some(l) != location {
                    cmds.push(BindCommand::AttachDepth { location: l, texture: None, level: 0 });
                }
            },
            None => {},
        }
        match attachment {
            Some(a) => {
                let loc = match location {
                    Some(l) => l,
                    None => DepthLocation::Depth,
                };
                match a {
                    Attachment::Texture2d { level, texture } => {
                        cmds.push(BindCommand::AttachDepth { location: loc, texture: Some(texture.id), level: *level as i32 });
                    },
                }
                self.bound_depth_attachment_id = Some((loc, a.id()));
            },
            None => {
                self.bound_depth_attachment_id = None;
            },
        }
    }

    /// Binds texture `id` to texture unit `unit`, unless it is bound there.
    pub fn bind_texture_2d(&mut self, unit: usize, id: Option<u32>, cmds: &mut Vec<BindCommand>)
        requires
            unit < usize::MAX,
        ensures
            final(self).bound_texture_2d_ids@ == slot_step(old(self).bound_texture_2d_ids@, unit as nat, id).0,
            final(cmds)@ == old(cmds)@ + if slot_step(old(self).bound_texture_2d_ids@, unit as nat, id).1 {
                seq![BindCommand::BindTexture2d { unit, texture: id }]
            } else {
                seq![]
            },
            final(self).bound_program_id == old(self).bound_program_id,
            final(self).is_draw_fbo_bound == old(self).is_draw_fbo_bound,
            final(self).bound_color_attachment_ids == old(self).bound_color_attachment_ids,
            final(self).bound_depth_attachment_id == old(self).bound_depth_attachment_id,
            final(self).bound_uniform_buffer_ids == old(self).bound_uniform_buffer_ids,
    {
        pad(&mut self.bound_texture_2d_ids, unit + 1);
        if self.bound_texture_2d_ids[unit] == id {
            return;
        }
        cmds.push(BindCommand::BindTexture2d { unit, texture: id });
        self.bound_texture_2d_ids.set(unit, id);
    }

    /// Binds buffer `id` to uniform binding point `location`, unless it is
    /// bound there.
    pub fn bind_uniform_buffer(&mut self, location: u32, id: Option<u32>, cmds: &mut Vec<BindCommand>)
        requires
            location < usize::MAX,
        ensures
            final(self).bound_uniform_buffer_ids@ == slot_step(old(self).bound_uniform_buffer_ids@, location as nat, id).0,
            final(cmds)@ == old(cmds)@ + if slot_step(old(self).bound_uniform_buffer_ids@, location as nat, id).1 {
                seq![BindCommand::BindUniformBuffer { location, buffer: id }]
            } else {
                seq![]
            },
            final(self).bound_program_id == old(self).bound_program_id,
            final(self).is_draw_fbo_bound == old(self).is_draw_fbo_bound,
            final(self).bound_color_attachment_ids == old(self).bound_color_attachment_ids,
            final(self).bound_depth_attachment_id == old(self).bound_depth_attachment_id,
            final(self).bound_texture_2d_ids == old(self).bound_texture_2d_ids,
    {
        let slot = location as usize;
        pad(&mut self.bound_uniform_buffer_ids, slot + 1);
        if self.bound_uniform_buffer_ids[slot] == id {
            return;
        }
        cmds.push(BindCommand::BindUniformBuffer { location, buffer: id });
        self.bound_uniform_buffer_ids.set(slot, id);
    }

    /// Unbinds buffer `id` from every uniform binding point that holds it.
    pub fn unbind_buffer_if_bound(&mut self, id: u32, cmds: &mut Vec<BindCommand>)
        requires
            old(self).bound_uniform_buffer_ids.len() <= u32::MAX + 1,
        ensures
            final(self).bound_uniform_buffer_ids@ == cleared(old(self).bound_uniform_buffer_ids@, id),
            final(cmds)@ == old(cmds)@ + buffer_unbind_cmds(
                old(self).bound_uniform_buffer_ids@,
                id,
                old(self).bound_uniform_buffer_ids.len() as int,
            ),
            final(self).bound_program_id == old(self).bound_program_id,
            final(self).is_draw_fbo_bound == old(self).is_draw_fbo_bound,
            final(self).bound_color_attachment_ids == old(self).bound_color_attachment_ids,
            final(self).bound_depth_attachment_id == old(self).bound_depth_attachment_id,
            final(self).bound_texture_2d_ids == old(self).bound_texture_2d_ids,
    {
        let ghost start = self.bound_uniform_buffer_ids@;
        let ghost cstart = cmds@;
        let n = self.bound_uniform_buffer_ids.len();
        let mut location: usize = 0;
        while location < n
            invariant
                location <= n,
                n == start.len(),
                n <= u32::MAX + 1,
                self.bound_uniform_buffer_ids@.len() == n,
                self.bound_program_id == old(self).bound_program_id,
                self.is_draw_fbo_bound == old(self).is_draw_fbo_bound,
                self.bound_color_attachment_ids == old(self).bound_color_attachment_ids,
                self.bound_depth_attachment_id == old(self).bound_depth_attachment_id,
                self.bound_texture_2d_ids == old(self).bound_texture_2d_ids,
                forall|i: int| 0 <= i < location ==> #[trigger] self.bound_uniform_buffer_ids@[i] == cleared(start, id)[i],
                forall|i: int| location <= i < n ==> #[trigger] self.bound_uniform_buffer_ids@[i] == start[i],
                cmds@ == cstart + buffer_unbind_cmds(start, id, location as int),
            decreases n - location,
        {
            if self.bound_uniform_buffer_ids[location] == Some(id) {
                cmds.push(BindCommand::BindUniformBuffer { location: location as u32, buffer: None });
                self.bound_uniform_buffer_ids.set(location, None);
            }
            location = location + 1;
        }
        assert(self.bound_uniform_buffer_ids@ == cleared(start, id));
    }

    /// Detaches and unbinds texture `id` wherever it is bound: as the depth
    /// attachment, among the color attachments (all of which are then
    /// detached), and on every texture unit.
    #[verifier::rlimit(40)]
    pub fn unbind_texture_2d_if_bound(&mut self, caps: &Caps, id: u32, cmds: &mut Vec<BindCommand>)
        ensures
            final(self).bound_program_id == old(self).bound_program_id,
            final(self).bound_uniform_buffer_ids == old(self).bound_uniform_buffer_ids,
            final(self).bound_texture_2d_ids@ == cleared(old(self).bound_texture_2d_ids@, id),
            ({
                let depth_hit = old(self).bound_depth_attachment_id matches Some((_, b)) && b == id;
                let color_hit = old(self).bound_color_attachment_ids@.contains(id);
                let fbo1 = depth_hit || old(self).is_draw_fbo_bound;
                let depth_cmds = depth_unbind_cmds(old(self).bound_depth_attachment_id, old(self).is_draw_fbo_bound, id);
                let bound = old(self).bound_color_attachment_ids@;
                let color_cmds = color_unbind_cmds(bound, id, fbo1);
                &&& final(self).bound_depth_attachment_id == if depth_hit {
                    None
                } else {
                    old(self).bound_depth_attachment_id
                }
                &&& final(self).bound_color_attachment_ids@ == if color_hit {
                    Seq::<u32>::empty()
                } else {
                    bound
                }
                &&& final(self).is_draw_fbo_bound == (fbo1 || color_hit)
                &&& final(cmds)@ == old(cmds)@ + depth_cmds + color_cmds + unit_unbind_cmds(
                    old(self).bound_texture_2d_ids@,
                    id,
                    old(self).bound_texture_2d_ids.len() as int,
                )
            }),
    {
        match self.bound_depth_attachment_id {
            Some((location, bound_id)) => {
                if bound_id == id {
                    self.bind_draw_fbo(true, cmds);
                    cmds.push(BindCommand::AttachDepth { location, texture: None, level: 0 });
                    self.bound_depth_attachment_id = None;
                }
            },
            None => {},
        }
        let mut hit = false;
        let mut i: usize = 0;
        while i < self.bound_color_attachment_ids.len()
            invariant
                i <= self.bound_color_attachment_ids.len(),
                hit <==> exists|j: int| 0 <= j < i && self.bound_color_attachment_ids@[j] == id,
            decreases self.bound_color_attachment_ids.len() - i,
        {
            if self.bound_color_attachment_ids[i] == id {
                hit = true;
            }
            i = i + 1;
        }
        assert(hit == self.bound_color_attachment_ids@.contains(id));
        if hit {
            self.bind_draw_fbo(true, cmds);
            let empty: Vec<Attachment> = Vec::new();
            let _ = self.bind_color_attachments(caps, empty.as_slice(), cmds);
            assert(attachment_ids(empty@) == Seq::<u32>::empty());
            assert(color_attach_cmds(old(self).bound_color_attachment_ids@, empty@, 0) == Seq::<BindCommand>::empty());
        }
        let ghost units = self.bound_texture_2d_ids@;
        let ghost mid = cmds@;
        let ghost depth_after = self.bound_depth_attachment_id;
        let ghost colors_after = self.bound_color_attachment_ids@;
        let ghost fbo_after = self.is_draw_fbo_bound;
        let n = self.bound_texture_2d_ids.len();
        let mut unit: usize = 0;
        while unit < n
            invariant
                unit <= n,
                n == units.len(),
                units == old(self).bound_texture_2d_ids@,
                self.bound_texture_2d_ids@.len() == n,
                self.bound_program_id == old(self).bound_program_id,
                self.bound_uniform_buffer_ids == old(self).bound_uniform_buffer_ids,
                self.bound_depth_attachment_id == depth_after,
                self.bound_color_attachment_ids@ == colors_after,
                self.is_draw_fbo_bound == fbo_after,
                forall|k: int| 0 <= k < unit ==> #[trigger] self.bound_texture_2d_ids@[k] == cleared(units, id)[k],
                forall|k: int| unit <= k < n ==> #[trigger] self.bound_texture_2d_ids@[k] == units[k],
                cmds@ == mid + unit_unbind_cmds(units, id, unit as int),
            decreases n - unit,
        {
            if self.bound_texture_2d_ids[unit] == Some(id) {
                cmds.push(BindCommand::BindTexture2d { unit, texture: None });
                self.bound_texture_2d_ids.set(unit, None);
            }
            unit = unit + 1;
        }
        assert(self.bound_texture_2d_ids@ == cleared(units, id));
    }

    /// Binds `framebuffer` for drawing: the default framebuffer, or the
    /// framebuffer object with the given attachments.
    pub fn bind_framebuffer(&mut self, caps: &Caps, framebuffer: &Framebuffer, cmds: &mut Vec<BindCommand>) -> (r:
        Result<(), FramebufferError>)
        requires
            framebuffer matches Framebuffer::Attachments { color_attachments, depth_attachment } ==> {
                &&& attachment_items(*color_attachments).len() <= u32::MAX
                &&& renderable_where_reached(
                    *caps,
                    old(self).bound_color_attachment_ids@,
                    attachment_items(*color_attachments),
                )
                &&& color_attach_outcome(*caps, old(self).bound_color_attachment_ids@, attachment_items(
                    *color_attachments,
                )).1 is None ==> (depth_attachment matches Some(a) ==> (a.level() <= i32::MAX && (old(
                    self,
                ).bound_depth_attachment_id matches Some((_, b)) && b == a.texture().id
                    || a.texture().internal_format is DepthF32)))
            },
        ensures
            final(self).bound_program_id == old(self).bound_program_id,
            final(self).bound_uniform_buffer_ids == old(self).bound_uniform_buffer_ids,
            final(self).bound_texture_2d_ids == old(self).bound_texture_2d_ids,
            match framebuffer {
                Framebuffer::Default => {
                    &&& r is Ok
                    &&& !final(self).is_draw_fbo_bound
                    &&& final(cmds)@ == old(cmds)@ + if old(self).is_draw_fbo_bound {
                        seq![BindCommand::BindDrawFramebuffer(false)]
                    } else {
                        seq![]
                    }
                    &&& final(self).bound_color_attachment_ids == old(self).bound_color_attachment_ids
                    &&& final(self).bound_depth_attachment_id == old(self).bound_depth_attachment_id
                },
                Framebuffer::Attachments { color_attachments, depth_attachment } => {
                    let bound = old(self).bound_color_attachment_ids@;
                    let (color_cmds, error) = color_attach_outcome(*caps, bound, attachment_items(*color_attachments));
                    let start = old(cmds)@ + fbo_cmd(old(self).is_draw_fbo_bound) + color_cmds;
                    &&& final(self).is_draw_fbo_bound
                    &&& match error {
                        Some(e) => {
                            &&& r == Err::<(), FramebufferError>(e)
                            &&& final(cmds)@ == start
                            &&& final(self).bound_color_attachment_ids@ == bound
                            &&& final(self).bound_depth_attachment_id == old(self).bound_depth_attachment_id
                        },
                        None => {
                            &&& r is Ok
                            &&& final(cmds)@ == start + depth_attach_cmds(
                                old(self).bound_depth_attachment_id,
                                *depth_attachment,
                            )
                            &&& final(self).bound_color_attachment_ids@ == attachment_ids(attachment_items(*color_attachments))
                            &&& final(self).bound_depth_attachment_id == depth_after(
                                old(self).bound_depth_attachment_id,
                                *depth_attachment,
                            )
                        },
                    }
                },
            },
    {
        match framebuffer {
            Framebuffer::Default => {
                self.bind_draw_fbo(false, cmds);
                Ok(())
            },
            Framebuffer::Attachments { color_attachments, depth_attachment } => {
                self.bind_draw_fbo(true, cmds);
                match self.bind_color_attachments(caps, color_attachments.as_slice(), cmds) {
                    Ok(()) => {},
                    Err(e) => {
                        return Err(e);
                    },
                }
                let depth = match depth_attachment {
                    Some(a) => Some(a),
                    None => None,
                };
                self.bind_depth_attachment(depth, cmds);
                Ok(())
            },
        }
    }
}

/// Extends `v` with `None` to at least length `n`.
fn pad(v: &mut Vec<Option<u32>>, n: usize)
    ensures
        final(v)@ == padded(old(v)@, n as nat),
{
    let ghost start = v@;
    if v.len() >= n {
        return;
    }
    while v.len() < n
        invariant
            start.len() <= v.len() <= n,
            v@ == start + Seq::new((v.len() - start.len()) as nat, |i: int| None::<u32>),
        decreases n - v.len(),
    {
        let ghost before = v@;
        v.push(None);
        assert(v@ == start + Seq::new((v.len() - start.len()) as nat, |i: int| None::<u32>));
    }
}

proof fn lemma_detach_cmds_push(from: int, to: int)
    requires
        from <= to,
    ensures
        detach_cmds(from, to + 1) == detach_cmds(from, to).push(
            BindCommand::AttachColor { index: to as usize, texture: None, level: 0 },
        ),
    decreases to - from,
{
    if from < to {
        lemma_detach_cmds_push(from + 1, to);
        assert(detach_cmds(from, to + 1) == seq![BindCommand::AttachColor { index: from as usize, texture: None, level: 0 }]
            + detach_cmds(from + 1, to + 1));
    } else {
        assert(detach_cmds(from + 1, to + 1) == Seq::<BindCommand>::empty());
    }
}


/// After binding `id` to a slot, the slot holds `id`, and every other slot
/// that existed holds what it held.
pub proof fn lemma_slot_step_holds(bound: Seq<Option<u32>>, slot: nat, id: Option<u32>)
    ensures
        slot_step(bound, slot, id).0.len() == if bound.len() > slot { bound.len() } else { slot + 1 },
        slot_step(bound, slot, id).0[slot as int] == id,
        forall|k: int| 0 <= k < bound.len() && k != slot ==> #[trigger] slot_step(bound, slot, id).0[k] == bound[k],
{
}

/// Binding what a slot holds changes nothing and needs no command: a second
/// binding of the same object to the same slot is free.
pub proof fn lemma_slot_step_idempotent(bound: Seq<Option<u32>>, slot: nat, id: Option<u32>)
    ensures
        slot_step(slot_step(bound, slot, id).0, slot, id) == (slot_step(bound, slot, id).0, false),
{
    let once = slot_step(bound, slot, id).0;
    assert(padded(once, slot + 1) == once);
}

/// After unbinding an object, no slot holds it, and the slots that held
/// something else still hold it.
pub proof fn lemma_cleared(slots: Seq<Option<u32>>, id: u32)
    ensures
        cleared(slots, id).len() == slots.len(),
        forall|k: int| 0 <= k < slots.len() ==> #[trigger] cleared(slots, id)[k] != Some(id),
        forall|k: int| 0 <= k < slots.len() && slots[k] != Some(id) ==> #[trigger] cleared(slots, id)[k] == slots[k],
{
}

proof fn lemma_bound_prefix_free(atts: Seq<Attachment>, max: nat, k: int)
    requires
        0 <= k <= atts.len(),
    ensures
        color_attach_cmds(attachment_ids(atts), atts, k) == Seq::<BindCommand>::empty(),
        first_level_failure(attachment_ids(atts), atts, max, k) is None,
    decreases k,
{
    if k > 0 {
        lemma_bound_prefix_free(atts, max, k - 1);
        assert(color_bound(attachment_ids(atts), atts, k - 1));
    }
}

/// Binding a framebuffer again, after binding it succeeded, is free: the
/// color attachments are attached already and cannot fail, the depth
/// attachment is attached already, and the framebuffer object is bound, so
/// no command is needed and nothing changes.
pub proof fn lemma_framebuffer_rebind_free(
    caps: Caps,
    bound: Seq<u32>,
    atts: Seq<Attachment>,
    depth_bound: Option<(DepthLocation, u32)>,
    depth: Option<Attachment>,
)
    requires
        color_attach_outcome(caps, bound, atts).1 is None,
    ensures
        color_attach_outcome(caps, attachment_ids(atts), atts) == (Seq::<BindCommand>::empty(), None::<FramebufferError>),
        depth_attach_cmds(depth_after(depth_bound, depth), depth) == Seq::<BindCommand>::empty(),
        depth_after(depth_after(depth_bound, depth), depth) == depth_after(depth_bound, depth),
        fbo_cmd(true) == Seq::<BindCommand>::empty(),
{
    let n = atts.len() as int;
    lemma_bound_prefix_free(atts, floor_log2(caps.max_texture_size as nat), n);
    assert(detach_cmds(n, n) == Seq::<BindCommand>::empty());
    assert(color_attach_outcome(caps, attachment_ids(atts), atts).0 =~= Seq::<BindCommand>::empty());
}

} // verus!
