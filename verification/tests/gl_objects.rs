use posh::gl::element_buffer::ElementBuffer;
use posh::gl::enums::{BufferUsage, ElementType};
use posh::gl::framebuffer::{ColorAttachment, DepthAttachment, Framebuffer};
use posh::gl::raw::buffer::Buffer;
use posh::gl::raw::context::Caps;
use posh::gl::raw::error::TextureError;
use posh::gl::raw::framebuffer::{self as raw_fb, Attachment, TextureInfo};
use posh::gl::raw::image::{Image, ImageComponentType, ImageFormat, ImageInternalFormat};
use posh::gl::raw::sampler_params::{
    Sampler2dParams, SamplerChange, SamplerMagFilter, SamplerMinFilter, SamplerWrap,
};
use posh::gl::raw::texture::{mipmap_levels, storage_levels, validate_size, ImageData, Texture2d};
use posh::gl::uniform_buffer::{to_bytes, UniformBuffer};
use posh::gl::Bool;

fn caps() -> Caps {
    Caps {
        max_texture_size: 256,
        max_color_attachments: 4,
        max_draw_buffers: 4,
        disjoint_timer_query_webgl2: false,
    }
}

fn image(size: [u32; 2], data: Option<&[u8]>) -> Image<'_> {
    Image {
        size,
        ty: ImageComponentType::U8,
        internal_format: ImageInternalFormat::RgbaU8,
        data,
    }
}

#[test]
fn image_sizes() {
    assert_eq!(ImageFormat::Rgb.size(), 3);
    assert_eq!(ImageFormat::DepthStencil.size(), 2);
    assert_eq!(ImageComponentType::F32.size_of(), 4);
    assert_eq!(ImageInternalFormat::DepthF32.to_format(), ImageFormat::Depth);
    assert!(ImageInternalFormat::RgbaI8Snorm.matches_type(ImageComponentType::I8));
    assert!(!ImageInternalFormat::RgbaF32.matches_type(ImageComponentType::U8));
    assert!(ImageInternalFormat::SrgbU8AlphaU8.is_color_renderable());
    assert!(!ImageInternalFormat::DepthF32.is_color_renderable());
    assert!(ImageInternalFormat::DepthF32.is_depth_renderable());
    assert!(!ImageInternalFormat::DepthF32.is_stencil_renderable());

    let img = Image {
        size: [3, 5],
        ty: ImageComponentType::F32,
        internal_format: ImageInternalFormat::RgbaF32,
        data: None,
    };
    assert_eq!(img.required_data_len(), 3 * 5 * 4 * 4);
}

#[test]
fn texture_size_validation() {
    assert!(validate_size([1, 256], &caps()).is_ok());
    assert!(matches!(validate_size([0, 4], &caps()), Err(TextureError::Empty)));
    assert!(matches!(
        validate_size([300, 4], &caps()),
        Err(TextureError::Oversized { requested: 300, max: 256 })
    ));
    assert!(matches!(
        validate_size([4, 257], &caps()),
        Err(TextureError::Oversized { requested: 257, max: 256 })
    ));
}

#[test]
fn mipmap_level_counts() {
    assert_eq!(mipmap_levels([1, 1]), 1);
    assert_eq!(mipmap_levels([8, 3]), 4);
    assert_eq!(mipmap_levels([3, 9]), 4);
    assert_eq!(storage_levels(&caps(), &image([8, 3], None), true).unwrap(), 4);
    assert_eq!(storage_levels(&caps(), &image([8, 3], None), false).unwrap(), 1);
    assert!(matches!(
        storage_levels(&caps(), &image([0, 3], None), true),
        Err(TextureError::Empty)
    ));
}

#[test]
fn image_data() {
    let img = image([2, 1], None);
    let mut data = ImageData::new(&img);
    assert_eq!(data.as_slice().unwrap(), &[0u8; 8][..]);

    let bytes = [1u8, 2, 3, 4, 5, 6, 7, 8];
    let img = image([2, 1], Some(&bytes));
    let mut data = ImageData::new(&img);
    assert_eq!(data.as_slice().unwrap(), &bytes[..]);

    let img = image([2, 2], Some(&bytes));
    let mut data = ImageData::new(&img);
    assert!(matches!(
        data.as_slice(),
        Err(TextureError::DataSizeMismatch { expected: 16, got: 8 })
    ));
}

#[test]
fn texture_settings_changes() {
    let img = image([4, 4], None);
    let mut tex = Texture2d::new(5, &img, 3);
    assert_eq!(tex.id(), 5);
    assert_eq!(tex.size(), [4, 4]);
    assert_eq!(tex.internal_format(), ImageInternalFormat::RgbaU8);

    let new = Sampler2dParams {
        mag_filter: SamplerMagFilter::Nearest,
        wrap_t: SamplerWrap::ClampToEdge,
        ..Sampler2dParams::default()
    };
    assert_eq!(
        tex.set_settings(new),
        vec![
            SamplerChange::MagFilter(SamplerMagFilter::Nearest),
            SamplerChange::WrapT(SamplerWrap::ClampToEdge),
        ]
    );
    assert!(tex.set_settings(new).is_empty());
}

#[test]
fn sampler_defaults_and_delta() {
    let d = Sampler2dParams::default();
    assert_eq!(d.mag_filter, SamplerMagFilter::Linear);
    assert_eq!(d.min_filter, SamplerMinFilter::NearestMipmapLinear);
    assert_eq!(d.wrap_s, SamplerWrap::Repeat);
    assert!(d.set_delta(&d).is_empty());
    let other = Sampler2dParams {
        min_filter: SamplerMinFilter::Linear,
        wrap_s: SamplerWrap::MirroredRepeat,
        ..d
    };
    assert_eq!(
        other.set_delta(&d),
        vec![
            SamplerChange::MinFilter(SamplerMinFilter::Linear),
            SamplerChange::WrapS(SamplerWrap::MirroredRepeat),
        ]
    );
}

#[test]
fn uniform_buffer_padding() {
    assert_eq!(to_bytes(&[]), Vec::<u8>::new());
    let padded = to_bytes(&[1, 2, 3]);
    assert_eq!(padded.len(), 16);
    assert_eq!(&padded[..3], &[1, 2, 3]);
    assert!(padded[3..].iter().all(|b| *b == 0));
    assert_eq!(to_bytes(&[9u8; 32]).len(), 32);
    assert_eq!(to_bytes(&[9u8; 33]).len(), 48);

    let mut ub = UniformBuffer::from_raw(Buffer::new(3, &[], 0, BufferUsage::DynamicDraw));
    assert_eq!(ub.usage(), BufferUsage::DynamicDraw);
    assert_eq!(ub.set(&[7u8; 20]).len(), 32);
    assert_eq!(ub.as_binding().buffer_id, 3);
}

#[test]
fn raw_buffer_state() {
    let mut b = Buffer::new(1, &[1, 2, 3, 4], 34962, BufferUsage::StaticDraw);
    assert_eq!(b.id(), 1);
    assert_eq!(b.target(), 34962);
    assert_eq!(b.len(), 4);
    // `is_empty` answers whether the buffer holds bytes.
    assert!(b.is_empty());
    b.set(&[]);
    assert_eq!(b.len(), 0);
    assert!(!b.is_empty());
}

#[test]
fn element_buffer_length_and_range() {
    let mut eb = ElementBuffer::from_raw(
        Buffer::new(2, &[0u8; 12], 0, BufferUsage::StaticDraw),
        ElementType::U16,
    );
    assert_eq!(eb.len(), 6);
    assert!(!eb.is_empty());
    let binding = eb.as_binding();
    assert_eq!(binding.range, (0, 6));
    assert_eq!(binding.buffer_id, 2);
    let ranged = binding.with_range((1, 4));
    assert_eq!(ranged.range(), (1, 4));
    assert_eq!(ranged.ty(), ElementType::U16);
    eb.set(&[0u8; 2]);
    assert_eq!(eb.len(), 1);
    assert_eq!(ElementType::U32.size(), 4);
}

#[test]
fn typed_framebuffers() {
    let c = Attachment::Texture2d {
        texture: TextureInfo {
            id: 1,
            size: [8, 8],
            internal_format: ImageInternalFormat::RgbaU8,
        },
        level: 0,
    };
    let d = Attachment::Texture2d {
        texture: TextureInfo {
            id: 2,
            size: [8, 8],
            internal_format: ImageInternalFormat::DepthF32,
        },
        level: 0,
    };
    let fb = ColorAttachment::from_raw(c).with_depth(DepthAttachment::from_raw(d));
    assert_attachments(fb.raw(), &[c], Some(d));
    assert!(matches!(Framebuffer::default_framebuffer().raw(), raw_fb::Framebuffer::Default));
    let fb = DepthAttachment::from_raw(d).with_color(vec![ColorAttachment::from_raw(c), ColorAttachment::from_raw(c)]);
    assert_attachments(fb.raw(), &[c, c], Some(d));
    assert_attachments(Framebuffer::new_depth(DepthAttachment::from_raw(d)).raw(), &[], Some(d));
    assert_attachments(Framebuffer::new_color(vec![ColorAttachment::from_raw(c)]).raw(), &[c], None);
}

fn assert_attachments(fb: raw_fb::Framebuffer, colors: &[Attachment], depth: Option<Attachment>) {
    match fb {
        raw_fb::Framebuffer::Attachments { color_attachments, depth_attachment } => {
            assert_eq!(color_attachments.as_slice(), colors);
            assert_eq!(depth_attachment, depth);
        }
        raw_fb::Framebuffer::Default => panic!("expected attachments"),
    }
}

#[test]
fn bool_round_trip() {
    assert_eq!(Bool::from(true), Bool(1));
    assert_eq!(Bool::from(false), Bool(0));
    assert!(bool::from(Bool(7)));
    assert!(!bool::from(Bool(0)));
    assert_eq!(Bool::default(), Bool(0));
}

#[test]
fn sampler_changes_reach_the_new_settings() {
    let current = Sampler2dParams::default();
    let new = Sampler2dParams {
        mag_filter: SamplerMagFilter::Nearest,
        min_filter: SamplerMinFilter::LinearMipmapLinear,
        wrap_s: SamplerWrap::ClampToEdge,
        wrap_t: SamplerWrap::Repeat,
    };
    let mut applied = current;
    for change in new.set_delta(&current) {
        match change {
            SamplerChange::MagFilter(f) => applied.mag_filter = f,
            SamplerChange::MinFilter(f) => applied.min_filter = f,
            SamplerChange::WrapS(w) => applied.wrap_s = w,
            SamplerChange::WrapT(w) => applied.wrap_t = w,
        }
    }
    assert_eq!(applied, new);
}
