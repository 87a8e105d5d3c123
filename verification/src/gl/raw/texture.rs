use vstd::prelude::*;

use super::context::{floor_log2, max_level, Caps};
use super::error::TextureError;
use super::image::{Image, ImageInternalFormat};
use super::sampler_params::{default_sampler_params, sampler_changes, Sampler2dParams, SamplerChange};

verus! {

/// Checks that a texture of size `size` is neither empty nor larger than
/// the implementation allows.
pub fn validate_size(size: [u32; 2], caps: &Caps) -> (r: Result<(), TextureError>)
    ensures
        r == if size[0] == 0 || size[1] == 0 {
            Err(TextureError::Empty)
        } else if size[0] > caps.max_texture_size {
            Err(TextureError::Oversized { requested: size[0], max: caps.max_texture_size })
        } else if size[1] > caps.max_texture_size {
            Err(TextureError::Oversized { requested: size[1], max: caps.max_texture_size })
        } else {
            Ok(())
        },
{
    if size[0] == 0 || size[1] == 0 {
        return Err(TextureError::Empty);
    }
    if size[0] > caps.max_texture_size {
        return Err(TextureError::Oversized { requested: size[0], max: caps.max_texture_size });
    }
    if size[1] > caps.max_texture_size {
        return Err(TextureError::Oversized { requested: size[1], max: caps.max_texture_size });
    }
    Ok(())
}

/// The number of mipmap levels of a full mipmap chain for a texture of size
/// `size`: one more than the base-two logarithm of the larger side, rounded
/// down.
pub fn mipmap_levels(size: [u32; 2]) -> (r: usize)
    ensures
        r == floor_log2(if size[0] >= size[1] { size[0] as nat } else { size[1] as nat }) + 1,
{
    let larger = if size[0] >= size[1] {
        size[0]
    } else {
        size[1]
    };
    let l = max_level(larger);
    l as usize + 1
}

/// The data of an image: the image's own, or zeros where it has none.
pub struct ImageData<'a> {
    image: &'a Image<'a>,
    buffer: Vec<u8>,
}

impl<'a> ImageData<'a> {
    /// The data of `image`.
    pub fn new(image: &'a Image<'a>) -> (r: Self)
        ensures
            r.image() == *image,
    {
        ImageData { image, buffer: Vec::new() }
    }

    /// The image.
    pub closed spec fn image(&self) -> Image<'a> {
        *self.image
    }

    /// The bytes to upload: the image's data when its length is the
    /// required one, zeros of the required length where the image has no
    /// data, and an error where the lengths differ.
    pub fn as_slice(&mut self) -> (r: Result<&[u8], TextureError>)
        requires
            old(self).image().spec_required_data_len() <= usize::MAX,
        ensures
            final(self).image() == old(self).image(),
            ({
                let len = old(self).image().spec_required_data_len();
                match old(self).image().data {
                    Some(d) => if d@.len() == len {
                        r matches Ok(s) && s@ == d@
                    } else {
                        r == Err::<&[u8], TextureError>(TextureError::DataSizeMismatch { expected: len as usize, got: d@.len() as usize })
                    },
                    None => r matches Ok(s) && s@ == Seq::new(len as nat, |i: int| 0u8),
                }
            }),
    {
        let len = self.image.required_data_len();
        match self.image.data {
            Some(slice) => {
                if slice.len() != len {
                    return Err(TextureError::DataSizeMismatch { expected: len, got: slice.len() });
                }
                Ok(slice)
            },
            None => {
                self.buffer = Vec::new();
                let mut i: usize = 0;
                while i < len
                    invariant
                        i <= len,
                        self.image() == old(self).image(),
                        self.buffer@ == Seq::new(i as nat, |k: int| 0u8),
                    decreases len - i,
                {
                    self.buffer.push(0u8);
                    assert(self.buffer@ == Seq::new((i + 1) as nat, |k: int| 0u8));
                    i = i + 1;
                }
                Ok(self.buffer.as_slice())
            },
        }
    }
}

/// The number of levels of storage that a new texture of `image` gets: one,
/// or a full mipmap chain; an error where the size is invalid.
pub fn storage_levels(caps: &Caps, image: &Image, mipmap: bool) -> (r: Result<usize, TextureError>)
    ensures
        match validate_result(image.size, caps) {
            Err(e) => r == Err::<usize, TextureError>(e),
            Ok(()) => r == Ok::<usize, TextureError>(
                if mipmap {
                    (floor_log2(
                        if image.size[0] >= image.size[1] {
                            image.size[0] as nat
                        } else {
                            image.size[1] as nat
                        },
                    ) + 1) as usize
                } else {
                    1
                },
            ),
        },
{
    match validate_size(image.size, caps) {
        Ok(()) => {},
        Err(e) => {
            return Err(e);
        },
    }
    if mipmap {
        Ok(mipmap_levels(image.size))
    } else {
        Ok(1)
    }
}

/// What `validate_size` gives for `size`.
pub open spec fn validate_result(size: [u32; 2], caps: &Caps) -> Result<(), TextureError> {
    if size[0] == 0 || size[1] == 0 {
        Err(TextureError::Empty)
    } else if size[0] > caps.max_texture_size {
        Err(TextureError::Oversized { requested: size[0], max: caps.max_texture_size })
    } else if size[1] > caps.max_texture_size {
        Err(TextureError::Oversized { requested: size[1], max: caps.max_texture_size })
    } else {
        Ok(())
    }
}

/// A two-dimensional texture: its object id, its size, how it stores its
/// pixels, its number of levels and the sampling settings in place.
pub struct Texture2d {
    id: u32,
    size: [u32; 2],
    internal_format: ImageInternalFormat,
    levels: usize,
    settings: Sampler2dParams,
}

impl Texture2d {
    /// A texture with object id `id`, with `levels` levels of storage for
    /// `image`, and the initial sampling settings.
    pub fn new(id: u32, image: &Image, levels: usize) -> (r: Self)
        ensures
            r.id_view() == id,
            r.size_view() == image.size,
            r.format_view() == image.internal_format,
            r.levels_view() == levels,
            r.settings_view() == default_sampler_params(),
    {
        Texture2d {
            id,
            size: image.size,
            internal_format: image.internal_format,
            levels,
            settings: Sampler2dParams::default(),
        }
    }

    pub closed spec fn id_view(&self) -> u32 {
        self.id
    }

    pub closed spec fn size_view(&self) -> [u32; 2] {
        self.size
    }

    pub closed spec fn format_view(&self) -> ImageInternalFormat {
        self.internal_format
    }

    pub closed spec fn levels_view(&self) -> usize {
        self.levels
    }

    pub closed spec fn settings_view(&self) -> Sampler2dParams {
        self.settings
    }

    /// The object id.
    pub fn id(&self) -> (r: u32)
        ensures
            r == self.id_view(),
    {
        self.id
    }

    /// The size.
    pub fn size(&self) -> (r: [u32; 2])
        ensures
            r == self.size_view(),
    {
        self.size
    }

    /// How the texture stores its pixels.
    pub fn internal_format(&self) -> (r: ImageInternalFormat)
        ensures
            r == self.format_view(),
    {
        self.internal_format
    }

    /// Puts the sampling settings `new` in place: the changes to apply, one
    /// for each setting that differs.
    pub fn set_settings(&mut self, new: Sampler2dParams) -> (r: Vec<SamplerChange>)
        ensures
            r@ == sampler_changes(new, old(self).settings_view()),
            final(self).settings_view() == new,
            final(self).id_view() == old(self).id_view(),
            final(self).size_view() == old(self).size_view(),
            final(self).format_view() == old(self).format_view(),
            final(self).levels_view() == old(self).levels_view(),
    {
        let current = self.settings;
        let r = new.set_delta(&current);
        self.settings = new;
        r
    }
}

} // verus!
