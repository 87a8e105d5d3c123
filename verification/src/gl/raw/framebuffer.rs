use vstd::prelude::*;

use super::image::ImageInternalFormat;
use super::params::Comparison;
use super::sampler_params::Sampler2dParams;
use super::small_vec::{attachment_items, AttachmentVec};

verus! {

/// What the framebuffer logic knows of a texture: its object id, its size
/// and how it stores its pixels.
#[derive(Debug, Copy, Clone, PartialEq, Eq)]
pub struct TextureInfo {
    pub id: u32,
    pub size: [u32; 2],
    pub internal_format: ImageInternalFormat,
}

/// An image that a framebuffer renders into.
#[derive(Debug, Copy, Clone, PartialEq, Eq)]
pub enum Attachment {
    /// A level of a two-dimensional texture.
    Texture2d { texture: TextureInfo, level: u32 },
}

impl Attachment {
    /// The texture of the attachment.
    pub open spec fn texture(self) -> TextureInfo {
        match self {
            Attachment::Texture2d { texture, .. } => texture,
        }
    }

    /// The level of the attachment.
    pub open spec fn level(self) -> u32 {
        match self {
            Attachment::Texture2d { level, .. } => level,
        }
    }

    /// The size of the attached texture.
    pub fn size(&self) -> (r: [u32; 2])
        ensures
            r == self.texture().size,
    {
        match self {
            Attachment::Texture2d { texture, .. } => texture.size,
        }
    }

    /// How the attached texture stores its pixels.
    pub fn internal_format(&self) -> (r: ImageInternalFormat)
        ensures
            r == self.texture().internal_format,
    {
        match self {
            Attachment::Texture2d { texture, .. } => texture.internal_format,
        }
    }

    /// The object id of the attached texture.
    pub fn id(&self) -> (r: u32)
        ensures
            r == self.texture().id,
    {
        match self {
            Attachment::Texture2d { texture, .. } => texture.id,
        }
    }
}

/// A texture as a shader samples it: the texture, the sampling settings,
/// and the depth comparison, if any.
#[derive(Debug, Copy, Clone, PartialEq, Eq)]
pub struct Sampler2d {
    pub texture: TextureInfo,
    pub params: Sampler2dParams,
    pub comparison: Option<Comparison>,
}

impl Attachment {
    /// A sampler of the attached texture.
    pub fn sampler(&self, params: Sampler2dParams, comparison: Option<Comparison>) -> (r: Sampler2d)
        ensures
            r == (Sampler2d { texture: self.texture(), params, comparison }),
    {
        match self {
            Attachment::Texture2d { texture, .. } => Sampler2d { texture: *texture, params, comparison },
        }
    }
}

/// Where drawing goes: the default framebuffer, or a set of attachments.
#[derive(Debug)]
pub enum Framebuffer {
    Default,
    Attachments { color_attachments: AttachmentVec, depth_attachment: Option<Attachment> },
}

/// The componentwise maximum of the sizes of `attachments`, starting from
/// `[0, 0]`.
pub open spec fn max_size(attachments: Seq<Attachment>) -> (u32, u32)
    decreases attachments.len(),
{
    if attachments.len() == 0 {
        (0, 0)
    } else {
        let (x, y) = max_size(attachments.drop_last());
        let s = attachments.last().texture().size;
        (if x >= s[0] { x } else { s[0] }, if y >= s[1] { y } else { s[1] })
    }
}

/// All attachments of a framebuffer: the color attachments, then the depth
/// attachment, if any.
pub open spec fn all_attachments(color: Seq<Attachment>, depth: Option<Attachment>) -> Seq<Attachment> {
    match depth {
        Some(d) => color.push(d),
        None => color,
    }
}

impl Framebuffer {
    /// The size of the framebuffer: that of the default framebuffer, or the
    /// componentwise maximum of the attachments' sizes.
    pub fn size(&self, default_size: [u32; 2]) -> (r: [u32; 2])
        ensures
            match self {
                Framebuffer::Default => r == default_size,
                Framebuffer::Attachments { color_attachments, depth_attachment } => {
                    let (x, y) = max_size(all_attachments(attachment_items(*color_attachments), *depth_attachment));
                    r[0] == x && r[1] == y
                },
            },
    {
        match self {
            Framebuffer::Default => default_size,
            Framebuffer::Attachments { color_attachments, depth_attachment } => {
                let color_attachments = color_attachments.as_slice();
                let mut x: u32 = 0;
                let mut y: u32 = 0;
                let mut i: usize = 0;
                while i < color_attachments.len()
                    invariant
                        i <= color_attachments.len(),
                        (x, y) == max_size(color_attachments@.take(i as int)),
                    decreases color_attachments.len() - i,
                {
                    let s = color_attachments[i].size();
                    proof {
                        assert(color_attachments@.take(i + 1).drop_last() == color_attachments@.take(i as int));
                    }
                    if s[0] > x {
                        x = s[0];
                    }
                    if s[1] > y {
                        y = s[1];
                    }
                    i = i + 1;
                }
                assert(color_attachments@.take(i as int) == color_attachments@);
                match depth_attachment {
                    Some(d) => {
                        let s = d.size();
                        assert(color_attachments@.push(*d).drop_last() == color_attachments@);
                        if s[0] > x {
                            x = s[0];
                        }
                        if s[1] > y {
                            y = s[1];
                        }
                    },
                    None => {},
                }
                [x, y]
            },
        }
    }
}

} // verus!
