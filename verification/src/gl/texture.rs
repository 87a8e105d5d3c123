use vstd::prelude::*;

use super::framebuffer::{ColorAttachment, DepthAttachment};
use super::raw::framebuffer::{Attachment, Sampler2d, TextureInfo};
use super::raw::params::Comparison;
use super::raw::sampler_params::Sampler2dParams;

verus! {

/// A color texture.
pub struct ColorTexture2d {
    pub raw: TextureInfo,
}

/// A depth texture.
pub struct DepthTexture2d {
    pub raw: TextureInfo,
}

/// A sampler of a color texture.
#[derive(Clone)]
pub struct ColorSampler2d {
    raw: Sampler2d,
}

/// A sampler of a depth texture that compares with a reference value.
#[derive(Clone)]
pub struct ComparisonSampler2d {
    raw: Sampler2d,
}

impl ColorTexture2d {
    /// Level 0 of the texture as a color attachment.
    pub fn as_color_attachment(&self) -> (r: ColorAttachment)
        ensures
            r.raw_view() == (Attachment::Texture2d { texture: self.raw, level: 0 }),
    {
        self.as_color_attachment_with_level(0)
    }

    /// Level `level` of the texture as a color attachment.
    pub fn as_color_attachment_with_level(&self, level: u32) -> (r: ColorAttachment)
        ensures
            r.raw_view() == (Attachment::Texture2d { texture: self.raw, level }),
    {
        ColorAttachment::from_raw(Attachment::Texture2d { texture: self.raw, level })
    }

    /// A sampler of the texture with the given settings.
    pub fn as_color_sampler(&self, params: Sampler2dParams) -> (r: ColorSampler2d)
        ensures
            r.raw_view() == (Sampler2d { texture: self.raw, params, comparison: None }),
    {
        ColorSampler2d::from_raw(Sampler2d { texture: self.raw, params, comparison: None })
    }
}

impl DepthTexture2d {
    /// Level 0 of the texture as a depth attachment.
    pub fn as_depth_attachment(&self) -> (r: DepthAttachment)
        ensures
            r.raw_view() == (Attachment::Texture2d { texture: self.raw, level: 0 }),
    {
        self.as_depth_attachment_with_level(0)
    }

    /// Level `level` of the texture as a depth attachment.
    pub fn as_depth_attachment_with_level(&self, level: u32) -> (r: DepthAttachment)
        ensures
            r.raw_view() == (Attachment::Texture2d { texture: self.raw, level }),
    {
        DepthAttachment::from_raw(Attachment::Texture2d { texture: self.raw, level })
    }

    /// A sampler of the depth values with the given settings.
    pub fn as_color_sampler(&self, params: Sampler2dParams) -> (r: ColorSampler2d)
        ensures
            r.raw_view() == (Sampler2d { texture: self.raw, params, comparison: None }),
    {
        ColorSampler2d::from_raw(Sampler2d { texture: self.raw, params, comparison: None })
    }

    /// A sampler that compares the depth values with a reference value.
    pub fn as_comparison_sampler(&self, params: Sampler2dParams, comparison: Comparison) -> (r: ComparisonSampler2d)
        ensures
            r.raw_view() == (Sampler2d { texture: self.raw, params, comparison: Some(comparison) }),
    {
        ComparisonSampler2d::from_raw(Sampler2d { texture: self.raw, params, comparison: Some(comparison) })
    }
}

impl ColorSampler2d {
    /// The sampler described by `raw`.
    pub fn from_raw(raw: Sampler2d) -> (r: Self)
        ensures
            r.raw_view() == raw,
    {
        ColorSampler2d { raw }
    }

    pub closed spec fn raw_view(&self) -> Sampler2d {
        self.raw
    }

    /// The untyped sampler.
    pub fn raw(&self) -> (r: &Sampler2d)
        ensures
            *r == self.raw_view(),
    {
        &self.raw
    }
}

impl ComparisonSampler2d {
    fn from_raw(raw: Sampler2d) -> (r: Self)
        ensures
            r.raw_view() == raw,
    {
        ComparisonSampler2d { raw }
    }

    pub closed spec fn raw_view(&self) -> Sampler2d {
        self.raw
    }

    /// The untyped sampler.
    pub fn raw(&self) -> (r: &Sampler2d)
        ensures
            *r == self.raw_view(),
    {
        &self.raw
    }
}

} // verus!
