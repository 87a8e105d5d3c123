use vstd::prelude::*;

verus! {

/// The layout of the components of an image's pixels.
#[derive(Debug, Clone, Copy, PartialEq, Eq, PartialOrd, Ord, Hash, Structural)]
pub enum ImageFormat {
    Rgba,
    Rgb,
    Rg,
    Red,
    RgbaInteger,
    RgbInteger,
    RgInteger,
    RedInteger,
    Depth,
    DepthStencil,
}

impl ImageFormat {
    /// The number of components of a pixel.
    pub open spec fn spec_size(self) -> nat {
        match self {
            ImageFormat::Rgba | ImageFormat::RgbaInteger => 4,
            ImageFormat::Rgb | ImageFormat::RgbInteger => 3,
            ImageFormat::Rg | ImageFormat::RgInteger | ImageFormat::DepthStencil => 2,
            ImageFormat::Red | ImageFormat::RedInteger | ImageFormat::Depth => 1,
        }
    }

    /// The number of components of a pixel.
    pub fn size(self) -> (r: usize)
        ensures
            r == self.spec_size(),
    {
        match self {
            ImageFormat::Rgba => 4,
            ImageFormat::Rgb => 3,
            ImageFormat::Rg => 2,
            ImageFormat::Red => 1,
            ImageFormat::RgbaInteger => 4,
            ImageFormat::RgbInteger => 3,
            ImageFormat::RgInteger => 2,
            ImageFormat::RedInteger => 1,
            ImageFormat::Depth => 1,
            ImageFormat::DepthStencil => 2,
        }
    }
}

/// The type of one component of a pixel.
#[derive(Debug, Clone, Copy, PartialEq, Eq, PartialOrd, Ord, Hash, Structural)]
pub enum ImageComponentType {
    U8,
    I8,
    F32,
}

impl ImageComponentType {
    /// The size of one component in bytes.
    pub open spec fn spec_size_of(self) -> nat {
        match self {
            ImageComponentType::U8 | ImageComponentType::I8 => 1,
            ImageComponentType::F32 => 4,
        }
    }

    /// The size of one component in bytes.
    pub fn size_of(self) -> (r: usize)
        ensures
            r == self.spec_size_of(),
    {
        match self {
            ImageComponentType::U8 => 1,
            ImageComponentType::I8 => 1,
            ImageComponentType::F32 => 4,
        }
    }
}

/// How the pixels of a texture are stored.
#[derive(Debug, Clone, Copy, PartialEq, Eq, PartialOrd, Ord, Hash, Structural)]
pub enum ImageInternalFormat {
    RgbaU8,
    SrgbU8AlphaU8,
    RgbaI8Snorm,
    RgbaF32,
    DepthF32,
}

impl ImageInternalFormat {
    /// The format of the pixels that the internal format stores.
    pub open spec fn spec_to_format(self) -> ImageFormat {
        match self {
            ImageInternalFormat::DepthF32 => ImageFormat::Depth,
            _ => ImageFormat::Rgba,
        }
    }

    /// The format of the pixels that the internal format stores.
    pub fn to_format(self) -> (r: ImageFormat)
        ensures
            r == self.spec_to_format(),
    {
        match self {
            ImageInternalFormat::RgbaU8 => ImageFormat::Rgba,
            ImageInternalFormat::SrgbU8AlphaU8 => ImageFormat::Rgba,
            ImageInternalFormat::RgbaI8Snorm => ImageFormat::Rgba,
            ImageInternalFormat::RgbaF32 => ImageFormat::Rgba,
            ImageInternalFormat::DepthF32 => ImageFormat::Depth,
        }
    }

    /// The component type that data for this internal format has.
    pub open spec fn component_type(self) -> ImageComponentType {
        match self {
            ImageInternalFormat::RgbaU8 | ImageInternalFormat::SrgbU8AlphaU8 => ImageComponentType::U8,
            ImageInternalFormat::RgbaI8Snorm => ImageComponentType::I8,
            ImageInternalFormat::RgbaF32 | ImageInternalFormat::DepthF32 => ImageComponentType::F32,
        }
    }

    /// Whether data of component type `ty` fits this internal format.
    pub fn matches_type(self, ty: ImageComponentType) -> (r: bool)
        ensures
            r == (ty == self.component_type()),
    {
        match self {
            ImageInternalFormat::RgbaU8 => ty == ImageComponentType::U8,
            ImageInternalFormat::SrgbU8AlphaU8 => ty == ImageComponentType::U8,
            ImageInternalFormat::RgbaI8Snorm => ty == ImageComponentType::I8,
            ImageInternalFormat::RgbaF32 => ty == ImageComponentType::F32,
            ImageInternalFormat::DepthF32 => ty == ImageComponentType::F32,
        }
    }

    /// The color formats can be rendered to as color attachments.
    pub open spec fn spec_is_color_renderable(self) -> bool {
        !(self is DepthF32)
    }

    /// Whether the format can be a color attachment.
    pub fn is_color_renderable(&self) -> (r: bool)
        ensures
            r == self.spec_is_color_renderable(),
    {
        match self {
            ImageInternalFormat::DepthF32 => false,
            _ => true,
        }
    }

    /// Whether the format can be a depth attachment: only the depth format.
    pub fn is_depth_renderable(&self) -> (r: bool)
        ensures
            r == (*self is DepthF32),
    {
        match self {
            ImageInternalFormat::DepthF32 => true,
            _ => false,
        }
    }

    /// The formats that can be stencil attachments: none of them.
    pub open spec fn spec_is_stencil_renderable(self) -> bool {
        false
    }

    /// Whether the format can be a stencil attachment: none of them is.
    pub fn is_stencil_renderable(&self) -> (r: bool)
        ensures
            r == self.spec_is_stencil_renderable(),
    {
        false
    }
}

/// The description of an image: its size, the type of its components, how a
/// texture stores it, and its data, if any.
pub struct Image<'a> {
    pub size: [u32; 2],
    pub ty: ImageComponentType,
    pub internal_format: ImageInternalFormat,
    pub data: Option<&'a [u8]>,
}

impl<'a> Image<'a> {
    /// The number of bytes that the image's data takes.
    pub open spec fn spec_required_data_len(&self) -> int {
        self.size[0] * self.size[1] * self.ty.spec_size_of() * self.internal_format.spec_to_format().spec_size()
    }

    /// The number of bytes that the image's data must have.
    pub fn required_data_len(&self) -> (r: usize)
        requires
            self.spec_required_data_len() <= usize::MAX,
        ensures
            r == self.spec_required_data_len(),
    {
        let width = self.size[0] as usize;
        let height = self.size[1] as usize;
        let bytes = self.ty.size_of();
        let num_components = self.internal_format.to_format().size();
        let w: u128 = width as u128;
        let h: u128 = height as u128;
        proof {
            assert(w * h <= 0xffff_ffff_ffff_ffff_ffff_ffff_ffff_ffffu128) by (nonlinear_arith)
                requires
                    w <= 0xffff_ffff,
                    h <= 0xffff_ffff,
            ;
            assert((w * h) * (bytes as int) <= 4 * (w * h)) by (nonlinear_arith)
                requires
                    bytes <= 4,
            ;
            assert(((w * h) * (bytes as int)) * (num_components as int) <= 4 * ((w * h) * (bytes as int))) by (
            nonlinear_arith)
                requires
                    num_components <= 4,
            ;
            assert(w * h * bytes * num_components == self.spec_required_data_len());
        }
        let area: usize = width * height;
        let area_bytes: usize = area * bytes;
        area_bytes * num_components
    }
}

} // verus!
