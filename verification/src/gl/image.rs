//! Images with four components per pixel, as shaders sample them, built
//! from pixel data or zeroed.

use vstd::prelude::*;

use super::raw::image::{Image as RawImage, ImageComponentType, ImageInternalFormat};

verus! {

/// An image whose pixels a shader samples as four components.
pub struct Image<'a> {
    raw: RawImage<'a>,
}

/// Calls `bytemuck::cast_slice` from `i8` to `u8`. Claimed: the result has
/// the same length and holds, at each position, the byte of the `i8` there
/// (its two's complement bits); both types have the same size and
/// alignment, so the cast cannot fail.
#[verifier::external_body]
fn i8_bytes(data: &[i8]) -> (r: &[u8])
    ensures
        r@.len() == data@.len(),
        forall|i: int| 0 <= i < data@.len() ==> #[trigger] r@[i] == data@[i] as u8,
{
    bytemuck::cast_slice(data)
}

impl<'a> Image<'a> {
    /// The untyped image.
    pub closed spec fn raw_view(&self) -> RawImage<'a> {
        self.raw
    }

    /// The untyped image.
    pub fn raw(self) -> (r: RawImage<'a>)
        ensures
            r == self.raw_view(),
    {
        self.raw
    }

    /// An image with `u8` components, in linear color, from `data`.
    pub fn slice_u8(size: [u32; 2], data: &'a [u8]) -> (r: Self)
        ensures
            r.raw_view() == (RawImage {
                size,
                ty: ImageComponentType::U8,
                internal_format: ImageInternalFormat::RgbaU8,
                data: Some(data),
            }),
    {
        Image {
            raw: RawImage { size, ty: ImageComponentType::U8, internal_format: ImageInternalFormat::RgbaU8, data: Some(data) },
        }
    }

    /// An image with `u8` components, in sRGB color with linear alpha, from
    /// `data`.
    pub fn slice_u8_srgb(size: [u32; 2], data: &'a [u8]) -> (r: Self)
        ensures
            r.raw_view() == (RawImage {
                size,
                ty: ImageComponentType::U8,
                internal_format: ImageInternalFormat::SrgbU8AlphaU8,
                data: Some(data),
            }),
    {
        Image {
            raw: RawImage {
                size,
                ty: ImageComponentType::U8,
                internal_format: ImageInternalFormat::SrgbU8AlphaU8,
                data: Some(data),
            },
        }
    }

    /// An image with signed normalized `i8` components, from `data`, which
    /// the image holds as its bytes.
    pub fn slice_i8_snorm(size: [u32; 2], data: &'a [i8]) -> (r: Self)
        ensures
            r.raw_view().size == size,
            r.raw_view().ty == ImageComponentType::I8,
            r.raw_view().internal_format == ImageInternalFormat::RgbaI8Snorm,
            r.raw_view().data matches Some(bytes) && bytes@.len() == data@.len() && forall|i: int|
                0 <= i < data@.len() ==> #[trigger] bytes@[i] == data@[i] as u8,
    {
        let bytes = i8_bytes(data);
        Image {
            raw: RawImage {
                size,
                ty: ImageComponentType::I8,
                internal_format: ImageInternalFormat::RgbaI8Snorm,
                data: Some(bytes),
            },
        }
    }

    /// An image with `f32` components, from the bytes of its `f32` data.
    pub fn slice_f32(size: [u32; 2], data: &'a [u8]) -> (r: Self)
        ensures
            r.raw_view() == (RawImage {
                size,
                ty: ImageComponentType::F32,
                internal_format: ImageInternalFormat::RgbaF32,
                data: Some(data),
            }),
    {
        Image {
            raw: RawImage { size, ty: ImageComponentType::F32, internal_format: ImageInternalFormat::RgbaF32, data: Some(data) },
        }
    }

    /// A zeroed image with `u8` components, in linear color.
    pub fn zeroed_u8(size: [u32; 2]) -> (r: Self)
        ensures
            r.raw_view() == (RawImage {
                size,
                ty: ImageComponentType::U8,
                internal_format: ImageInternalFormat::RgbaU8,
                data: None,
            }),
    {
        Image { raw: RawImage { size, ty: ImageComponentType::U8, internal_format: ImageInternalFormat::RgbaU8, data: None } }
    }

    /// A zeroed image with `u8` components, in sRGB color with linear
    /// alpha.
    pub fn zeroed_u8_srgb(size: [u32; 2]) -> (r: Self)
        ensures
            r.raw_view() == (RawImage {
                size,
                ty: ImageComponentType::U8,
                internal_format: ImageInternalFormat::SrgbU8AlphaU8,
                data: None,
            }),
    {
        Image {
            raw: RawImage { size, ty: ImageComponentType::U8, internal_format: ImageInternalFormat::SrgbU8AlphaU8, data: None },
        }
    }

    /// A zeroed image with signed normalized `i8` components.
    pub fn zeroed_i8_snorm(size: [u32; 2]) -> (r: Self)
        ensures
            r.raw_view() == (RawImage {
                size,
                ty: ImageComponentType::I8,
                internal_format: ImageInternalFormat::RgbaI8Snorm,
                data: None,
            }),
    {
        Image {
            raw: RawImage { size, ty: ImageComponentType::I8, internal_format: ImageInternalFormat::RgbaI8Snorm, data: None },
        }
    }

    /// A zeroed image with `f32` components.
    pub fn zeroed_f32(size: [u32; 2]) -> (r: Self)
        ensures
            r.raw_view() == (RawImage {
                size,
                ty: ImageComponentType::F32,
                internal_format: ImageInternalFormat::RgbaF32,
                data: None,
            }),
    {
        Image { raw: RawImage { size, ty: ImageComponentType::F32, internal_format: ImageInternalFormat::RgbaF32, data: None } }
    }
}

} // verus!
