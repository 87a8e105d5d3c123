use vstd::prelude::*;

use super::raw;
use super::raw::framebuffer::Attachment;
use super::raw::small_vec::{attachment_items, AttachmentVec};
use super::raw::sampler_params::Sampler2dParams;
use super::texture::ColorSampler2d;

verus! {

/// An image that a framebuffer renders colors into.
#[derive(Clone)]
pub struct ColorAttachment {
    raw: Attachment,
}

impl ColorAttachment {
    /// The attachment described by `raw`.
    pub fn from_raw(raw: Attachment) -> (r: Self)
        ensures
            r.raw_view() == raw,
    {
        ColorAttachment { raw }
    }

    pub closed spec fn raw_view(&self) -> Attachment {
        self.raw
    }

    /// A sampler of the attached texture with the given settings.
    pub fn as_color_sampler(&self, params: Sampler2dParams) -> (r: ColorSampler2d)
        ensures
            r.raw_view() == (raw::framebuffer::Sampler2d { texture: self.raw_view().texture(), params, comparison: None }),
    {
        ColorSampler2d::from_raw(self.raw.sampler(params, None))
    }

    /// A framebuffer with this color attachment and a depth attachment.
    pub fn with_depth(&self, depth: DepthAttachment) -> (r: Framebuffer)
        ensures
            r.color_view() == seq![self.raw_view()],
            r.depth_view() == Some(depth.raw_view()),
            !r.is_default_view(),
    {
        let mut colors: Vec<ColorAttachment> = Vec::new();
        colors.push(ColorAttachment { raw: self.raw });
        Framebuffer::new_color_depth(colors, depth)
    }
}

/// An image that a framebuffer renders depths into.
#[derive(Clone)]
pub struct DepthAttachment {
    raw: Attachment,
}

impl DepthAttachment {
    /// The attachment described by `raw`.
    pub fn from_raw(raw: Attachment) -> (r: Self)
        ensures
            r.raw_view() == raw,
    {
        DepthAttachment { raw }
    }

    pub closed spec fn raw_view(&self) -> Attachment {
        self.raw
    }
}

/// Where a program draws: the default framebuffer, or color attachments,
/// a depth attachment, or both.
pub struct Framebuffer {
    is_default: bool,
    color: Vec<ColorAttachment>,
    depth: Option<DepthAttachment>,
}

/// The untyped attachments of color attachments.
pub open spec fn colors_raw(colors: Seq<ColorAttachment>) -> Seq<Attachment> {
    colors.map_values(|c: ColorAttachment| c.raw_view())
}

/// The untyped attachments of the color attachments `colors`, in order.
fn raw_color_attachments(colors: &Vec<ColorAttachment>) -> (r: Vec<Attachment>)
    ensures
        r@ == colors_raw(colors@),
{
    let mut r: Vec<Attachment> = Vec::new();
    let mut i: usize = 0;
    while i < colors.len()
        invariant
            i <= colors.len(),
            r@ == colors_raw(colors@.take(i as int)),
        decreases colors.len() - i,
    {
        r.push(colors[i].raw);
        proof {
            assert(colors_raw(colors@.take(i + 1)) == colors_raw(colors@.take(i as int)).push(
                colors@[i as int].raw_view(),
            ));
        }
        i = i + 1;
    }
    assert(colors@.take(i as int) == colors@);
    r
}

impl DepthAttachment {
    /// A framebuffer with color attachments and this depth attachment.
    pub fn with_color(&self, color: Vec<ColorAttachment>) -> (r: Framebuffer)
        ensures
            r.color_view() == colors_raw(color@),
            r.depth_view() == Some(self.raw_view()),
            !r.is_default_view(),
    {
        Framebuffer::new_color_depth(color, DepthAttachment { raw: self.raw })
    }
}

impl Framebuffer {
    pub closed spec fn is_default_view(&self) -> bool {
        self.is_default
    }

    pub closed spec fn color_view(&self) -> Seq<Attachment> {
        colors_raw(self.color@)
    }

    pub closed spec fn depth_view(&self) -> Option<Attachment> {
        match self.depth {
            Some(d) => Some(d.raw_view()),
            None => None,
        }
    }

    /// The default framebuffer.
    pub fn default_framebuffer() -> (r: Self)
        ensures
            r.is_default_view(),
            r.color_view().len() == 0,
            r.depth_view() is None,
    {
        Framebuffer { is_default: true, color: Vec::new(), depth: None }
    }

    /// A framebuffer with color attachments only.
    pub fn new_color(color: Vec<ColorAttachment>) -> (r: Self)
        ensures
            !r.is_default_view(),
            r.color_view() == colors_raw(color@),
            r.depth_view() is None,
    {
        Framebuffer { is_default: false, color, depth: None }
    }

    /// A framebuffer with color attachments and a depth attachment.
    pub fn new_color_depth(color: Vec<ColorAttachment>, depth: DepthAttachment) -> (r: Self)
        ensures
            !r.is_default_view(),
            r.color_view() == colors_raw(color@),
            r.depth_view() == Some(depth.raw_view()),
    {
        Framebuffer { is_default: false, color, depth: Some(depth) }
    }

    /// A framebuffer with a depth attachment only.
    pub fn new_depth(depth: DepthAttachment) -> (r: Self)
        ensures
            !r.is_default_view(),
            r.color_view().len() == 0,
            r.depth_view() == Some(depth.raw_view()),
    {
        Framebuffer { is_default: false, color: Vec::new(), depth: Some(depth) }
    }

    /// The untyped framebuffer.
    pub fn raw(&self) -> (r: raw::framebuffer::Framebuffer)
        ensures
            self.is_default_view() ==> r == raw::framebuffer::Framebuffer::Default,
            !self.is_default_view() ==> (r matches raw::framebuffer::Framebuffer::Attachments {
                color_attachments,
                depth_attachment,
            } && attachment_items(color_attachments) == self.color_view() && depth_attachment == self.depth_view()),
    {
        if self.is_default {
            return raw::framebuffer::Framebuffer::Default;
        }
        let colors = raw_color_attachments(&self.color);
        let depth = match &self.depth {
            Some(d) => Some(d.raw),
            None => None,
        };
        raw::framebuffer::Framebuffer::Attachments { color_attachments: AttachmentVec::from_vec(colors), depth_attachment: depth }
    }
}

} // verus!
