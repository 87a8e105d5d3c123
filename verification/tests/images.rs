use posh::gl::image::Image;
use posh::gl::raw::image::{ImageComponentType, ImageInternalFormat};

#[test]
fn images_from_data_keep_their_size_format_and_data() {
    let data = [1u8, 2, 3, 4];
    let raw = Image::slice_u8([1, 1], &data).raw();
    assert_eq!(raw.size, [1, 1]);
    assert_eq!(raw.ty, ImageComponentType::U8);
    assert_eq!(raw.internal_format, ImageInternalFormat::RgbaU8);
    assert_eq!(raw.data, Some(&data[..]));

    let raw = Image::slice_u8_srgb([1, 1], &data).raw();
    assert_eq!(raw.internal_format, ImageInternalFormat::SrgbU8AlphaU8);
    assert_eq!(raw.required_data_len(), 4);
}

#[test]
fn signed_components_are_held_as_their_bytes() {
    let data = [-1i8, 2, -128, 127];
    let raw = Image::slice_i8_snorm([1, 1], &data).raw();
    assert_eq!(raw.ty, ImageComponentType::I8);
    assert_eq!(raw.internal_format, ImageInternalFormat::RgbaI8Snorm);
    assert_eq!(raw.data, Some(&[255u8, 2, 128, 127][..]));
}

#[test]
fn float_images_take_the_bytes_of_their_data() {
    let data: [f32; 4] = [0.0, 0.5, 1.0, 1.0];
    let bytes: Vec<u8> = data.iter().flat_map(|x| x.to_ne_bytes()).collect();
    let raw = Image::slice_f32([1, 1], &bytes).raw();
    assert_eq!(raw.ty, ImageComponentType::F32);
    assert_eq!(raw.internal_format, ImageInternalFormat::RgbaF32);
    assert_eq!(raw.required_data_len(), 16);
    assert_eq!(raw.data.map(|d| d.len()), Some(16));
}

#[test]
fn zeroed_images_have_no_data() {
    let raw = Image::zeroed_u8([2, 3]).raw();
    assert_eq!(raw.size, [2, 3]);
    assert_eq!(raw.internal_format, ImageInternalFormat::RgbaU8);
    assert!(raw.data.is_none());
    assert_eq!(Image::zeroed_u8_srgb([1, 1]).raw().internal_format, ImageInternalFormat::SrgbU8AlphaU8);
    assert_eq!(Image::zeroed_i8_snorm([1, 1]).raw().ty, ImageComponentType::I8);
    assert_eq!(Image::zeroed_f32([1, 1]).raw().required_data_len(), 16);
}
