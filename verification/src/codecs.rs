//! Trusted bridges to the image and base64 codecs, with names for their
//! deterministic results.

use vstd::prelude::*;
use base64::Engine;
use crate::error::QrError;

verus! {

/// What decoding an image file to RGBA yields: width, height and the
/// row-major RGBA bytes, or nothing when the bytes are no readable image.
pub uninterp spec fn rgba_of(bytes: Seq<u8>) -> Option<(nat, nat, Seq<u8>)>;

/// What decoding an image file to 8-bit luminance yields: width, height and
/// the row-major luma bytes, or nothing when the bytes are no readable image.
pub uninterp spec fn luma_of(bytes: Seq<u8>) -> Option<(nat, nat, Seq<u8>)>;

/// What resampling an RGBA image to a square of the given side yields.
pub uninterp spec fn resized_of(px: Seq<u8>, w: int, h: int, side: int) -> Seq<u8>;

/// The PNG serialization of an RGBA buffer with the given dimensions.
pub uninterp spec fn png_of(px: Seq<u8>, w: int, h: int) -> Seq<u8>;

/// The padded standard base64 text of a byte string.
pub uninterp spec fn base64_of(bytes: Seq<u8>) -> Seq<char>;

/// Relies on `image::load_from_memory` and `DynamicImage::to_rgba8`: decodes
/// an image file into its dimensions and RGBA bytes, four bytes per pixel.
#[verifier::external_body]
pub(crate) fn image_decode_rgba(bytes: &Vec<u8>) -> (r: Result<(u32, u32, Vec<u8>), QrError>)
    ensures
        match r {
            Ok(t) => {
                &&& rgba_of(bytes@) == Some((t.0 as nat, t.1 as nat, t.2@))
                &&& t.2@.len() == 4 * t.0 * t.1
            },
            Err(e) => {
                &&& rgba_of(bytes@) is None
                &&& e is ImageError
            },
        },
{
    match image::load_from_memory(bytes) {
        Ok(img) => {
            let rgba = img.to_rgba8();
            let (w, h) = rgba.dimensions();
            Ok((w, h, rgba.into_raw()))
        },
        Err(e) => Err(QrError::ImageError(e.to_string())),
    }
}

/// Relies on `image::load_from_memory` and `DynamicImage::to_luma8`: decodes
/// an image file into its dimensions and luminance bytes, one byte per pixel.
#[verifier::external_body]
pub(crate) fn image_decode_luma(bytes: &Vec<u8>) -> (r: Result<(u32, u32, Vec<u8>), QrError>)
    ensures
        match r {
            Ok(t) => {
                &&& luma_of(bytes@) == Some((t.0 as nat, t.1 as nat, t.2@))
                &&& t.2@.len() == t.0 * t.1
            },
            Err(e) => {
                &&& luma_of(bytes@) is None
                &&& e is ImageError
            },
        },
{
    match image::load_from_memory(bytes) {
        Ok(img) => {
            let luma = img.to_luma8();
            let (w, h) = luma.dimensions();
            Ok((w, h, luma.into_raw()))
        },
        Err(e) => Err(QrError::ImageError(e.to_string())),
    }
}

/// Relies on `image::imageops::resize` with the Lanczos3 filter: resamples an
/// RGBA image to exactly `side` by `side` pixels.
#[verifier::external_body]
pub(crate) fn image_resize_rgba(px: &Vec<u8>, w: u32, h: u32, side: u32) -> (r: Vec<u8>)
    requires
        px@.len() == 4 * w * h,
    ensures
        r@ == resized_of(px@, w as int, h as int, side as int),
        r@.len() == 4 * side * side,
{
    let img: image::RgbaImage = image::ImageBuffer::from_raw(w, h, px.clone()).unwrap();
    image::imageops::resize(&img, side, side, image::imageops::FilterType::Lanczos3).into_raw()
}

/// Relies on `image::codecs::png::PngEncoder::write_image`: serializes an
/// RGBA8 buffer of the given dimensions as a PNG file. Its only panic is the
/// buffer-length check, which the `requires` excludes exactly; writing into
/// a `Vec` cannot fail, so encoding succeeds whenever both dimensions are
/// non-zero.
#[verifier::external_body]
pub(crate) fn png_encode_rgba(px: &Vec<u8>, w: u32, h: u32) -> (r: Result<Vec<u8>, QrError>)
    requires
        px@.len() == 4 * w * h,
    ensures
        r matches Ok(b) ==> b@ == png_of(px@, w as int, h as int),
        r is Err ==> r matches Err(QrError::ImageError(_)),
        w >= 1 && h >= 1 ==> r is Ok,
{
    let mut out: Vec<u8> = Vec::new();
    let enc = image::codecs::png::PngEncoder::new(&mut out);
    match image::ImageEncoder::write_image(enc, px, w, h, image::ExtendedColorType::Rgba8) {
        Ok(()) => Ok(out),
        Err(e) => Err(QrError::ImageError(e.to_string())),
    }
}

/// Relies on base64's `STANDARD` engine `encode`: the padded base64 text of
/// the bytes, four output characters for every three input bytes.
#[verifier::external_body]
pub(crate) fn base64_encode(bytes: &Vec<u8>) -> (r: String)
    ensures
        r@ == base64_of(bytes@),
        r@.len() == 4 * ((bytes@.len() + 2) / 3),
{
    base64::engine::general_purpose::STANDARD.encode(bytes)
}

} // verus!
