use scoped_gl::settings::{
    ActiveTextureSetting, ArrayBufferSetting, BlendSetting, DepthTestSetting, EmptySetting,
    TextureSetting,
};
use scoped_gl::texture::TEXTURES_COUNT;
use scoped_gl::{BufferUsage, TextureFilter, TextureFormat, TextureType};
use web_sys::WebGlRenderingContext;

#[test]
fn filter_codes_are_the_contexts() {
    assert_eq!(i32::from(TextureFilter::Nearest), 9728);
    assert_eq!(i32::from(TextureFilter::Linear), 9729);
    assert_eq!(i32::from(TextureFilter::Nearest) as u32, WebGlRenderingContext::NEAREST);
    assert_eq!(i32::from(TextureFilter::Linear) as u32, WebGlRenderingContext::LINEAR);
}

#[test]
fn type_codes_are_the_contexts() {
    assert_eq!(u32::from(TextureType::Byte), 5121);
    assert_eq!(u32::from(TextureType::Float), 5126);
    assert_eq!(u32::from(TextureType::Byte), WebGlRenderingContext::UNSIGNED_BYTE);
    assert_eq!(u32::from(TextureType::Float), WebGlRenderingContext::FLOAT);
}

#[test]
fn format_codes_are_the_contexts() {
    assert_eq!(u32::from(TextureFormat::Alpha), 6406);
    assert_eq!(u32::from(TextureFormat::Rgb), 6407);
    assert_eq!(u32::from(TextureFormat::Rgba), 6408);
    assert_eq!(u32::from(TextureFormat::Luminance), 6409);
    assert_eq!(u32::from(TextureFormat::LuminanceAlpha), 6410);
    assert_eq!(u32::from(TextureFormat::Alpha), WebGlRenderingContext::ALPHA);
    assert_eq!(u32::from(TextureFormat::Rgb), WebGlRenderingContext::RGB);
    assert_eq!(u32::from(TextureFormat::Rgba), WebGlRenderingContext::RGBA);
    assert_eq!(u32::from(TextureFormat::Luminance), WebGlRenderingContext::LUMINANCE);
    assert_eq!(u32::from(TextureFormat::LuminanceAlpha), WebGlRenderingContext::LUMINANCE_ALPHA);
}

#[test]
fn usage_codes_are_the_contexts() {
    assert_eq!(u32::from(BufferUsage::Stream), 35040);
    assert_eq!(u32::from(BufferUsage::Static), 35044);
    assert_eq!(u32::from(BufferUsage::Dynamic), 35048);
    assert_eq!(u32::from(BufferUsage::Stream), WebGlRenderingContext::STREAM_DRAW);
    assert_eq!(u32::from(BufferUsage::Static), WebGlRenderingContext::STATIC_DRAW);
    assert_eq!(u32::from(BufferUsage::Dynamic), WebGlRenderingContext::DYNAMIC_DRAW);
}

#[test]
fn codes_convert_back() {
    assert_eq!(TextureFilter::try_from_primitive(9728), Some(TextureFilter::Nearest));
    assert_eq!(TextureFilter::try_from_primitive(9729), Some(TextureFilter::Linear));
    assert_eq!(TextureType::try_from_primitive(5121), Some(TextureType::Byte));
    assert_eq!(TextureType::try_from_primitive(5126), Some(TextureType::Float));
    assert_eq!(TextureFormat::try_from_primitive(6406), Some(TextureFormat::Alpha));
    assert_eq!(TextureFormat::try_from_primitive(6407), Some(TextureFormat::Rgb));
    assert_eq!(TextureFormat::try_from_primitive(6408), Some(TextureFormat::Rgba));
    assert_eq!(TextureFormat::try_from_primitive(6409), Some(TextureFormat::Luminance));
    assert_eq!(TextureFormat::try_from_primitive(6410), Some(TextureFormat::LuminanceAlpha));
    assert_eq!(BufferUsage::try_from_primitive(35040), Some(BufferUsage::Stream));
    assert_eq!(BufferUsage::try_from_primitive(35044), Some(BufferUsage::Static));
    assert_eq!(BufferUsage::try_from_primitive(35048), Some(BufferUsage::Dynamic));
}

#[test]
fn unknown_codes_convert_to_nothing() {
    assert_eq!(TextureFilter::try_from_primitive(0), None);
    assert_eq!(TextureFilter::try_from_primitive(-9728), None);
    assert_eq!(TextureFilter::try_from_primitive(9730), None);
    assert_eq!(TextureType::try_from_primitive(5122), None);
    assert_eq!(TextureFormat::try_from_primitive(6405), None);
    assert_eq!(TextureFormat::try_from_primitive(6411), None);
    assert_eq!(BufferUsage::try_from_primitive(35041), None);
    assert_eq!(BufferUsage::try_from_primitive(u32::MAX), None);
}

#[test]
fn defaults_mirror_a_fresh_context() {
    assert_eq!(TextureFilter::default(), TextureFilter::Linear);
    assert_eq!(BlendSetting::default(), BlendSetting(false));
    assert_eq!(DepthTestSetting::default(), DepthTestSetting(false));
    assert_eq!(ActiveTextureSetting::default(), ActiveTextureSetting(0));
    assert_eq!(ArrayBufferSetting::default(), ArrayBufferSetting(None));
    assert_eq!(TextureSetting::default(), TextureSetting { index: 0, texture: None });
    assert_eq!(EmptySetting::default(), EmptySetting {});
    assert_eq!(TEXTURES_COUNT, 16);
}
